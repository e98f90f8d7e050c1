//! What holds of every profile of a drive: what was read out of the drive stands
//! in it, each under its own name, and reads back.

use crate::encode::{
    date_text, dump_rows, hex_row, law_toml_escape_leaves_no_control, law_toml_round_trip,
    toml_escaped, toml_unescaped, wrapped,
};
use crate::info::{
    CAPTURE_COMMAND, Capture, DriveAnswer, DriveFlags, DriveId, DriveIdentity, Feature,
    announced_length, block_line, bool_text, buffer_section, drive_flags_from, drive_listing,
    drive_report, drive_toml_text, feature_file, feature_files, feature_line, feature_lines,
    folded_archive, header_comment, identity_block, identity_field, law_header_comment_is_one_line,
    line_if, profile_summary, raw_identity, saved_files, shown_serial, spliced, toml_line,
    with_file,
};
use crate::reading::{
    between, ends_with, hex_value, is_whole, lacks, law_byte_reads_back, law_joined_has_each_part,
    law_word_reads_back, lemma_between, lemma_has_either, lemma_has_part, lemma_lacks_concat,
    lemma_lines_concat, lemma_one_line, lemma_read_key, lemma_starts, lines_of, read_key,
    starts_with,
};
use crate::strings::{is_safe, is_unsafe_char, text_of};
use crate::text::{dec, has_text, hex2, hex2_upper, hex4, hex4_upper, is_control, joined, occurs_at};
use vstd::prelude::*;
use vstd::string::*;

verus! {

proof fn lemma_safe_lacks(s: Seq<char>)
    requires
        is_safe(s),
    ensures
        lacks(s, '\n'),
{
    assert(is_unsafe_char('\n'));
    assert forall|i: int| 0 <= i < s.len() implies #[trigger] s[i] != '\n' by {
        assert(!is_unsafe_char(s[i]));
    }
}

/// One line of the form `key = "value"`, escaped and ended, is one line.
proof fn lemma_toml_line(key: Seq<char>, value: Seq<char>)
    requires
        lacks(key, '\n'),
    ensures
        is_whole(toml_line(key, value)),
        lines_of(toml_line(key, value)) == seq![
            key + " = \""@ + toml_escaped(value) + "\""@,
        ],
{
    reveal_strlit(" = \"");
    reveal_strlit("\"");
    reveal_strlit("\"\n");
    law_toml_escape_leaves_no_control(value);
    let e = toml_escaped(value);
    assert forall|i: int| 0 <= i < e.len() implies #[trigger] e[i] != '\n' by {
        assert(!is_control(e[i]));
    }
    let l = key + " = \""@ + e + "\""@;
    lemma_lacks_concat(key, " = \""@, '\n');
    lemma_lacks_concat(key + " = \""@, e, '\n');
    lemma_lacks_concat(key + " = \""@ + e, "\""@, '\n');
    lemma_one_line(l);
    assert(toml_line(key, value) =~= l + seq!['\n']);
}

/// The lines of the head of a profile.
proof fn lemma_head_lines(id: DriveIdentity)
    requires
        id.wf(),
    ensures
        ({
            let head = header_comment(id.vendor@, id.product@, id.revision@) + "[drive]\n"@;
            let l = lines_of(head);
            &&& is_whole(head)
            &&& l.len() == 3
            &&& l[0].len() > 0 && l[0][0] == '#'
            &&& l[1].len() == 0
            &&& l[2] == "[drive]"@
        }),
{
    reveal_strlit("# ");
    reveal_strlit("[drive]\n");
    reveal_strlit("[drive]");
    let h = header_comment(id.vendor@, id.product@, id.revision@);
    law_header_comment_is_one_line(id.vendor@, id.product@, id.revision@);
    let l0 = h.take(h.len() - 2);
    lemma_safe_lacks(l0);
    let e = Seq::<char>::empty();
    let d = "[drive]"@;
    lemma_one_line(l0);
    lemma_one_line(e);
    lemma_one_line(d);
    assert(h =~= (l0 + seq!['\n']) + (e + seq!['\n'])) by {
        assert(h =~= h.take(h.len() - 2) + h.skip(h.len() - 2));
    }
    lemma_lines_concat(l0 + seq!['\n'], e + seq!['\n']);
    assert("[drive]\n"@ =~= d + seq!['\n']);
    lemma_lines_concat(h, d + seq!['\n']);
    assert(h[0] == '#');
    assert(lines_of(h + "[drive]\n"@) =~= seq![l0, e, d]);
}

/// The part of a profile about the drive.
pub open spec fn drive_part(id: DriveIdentity, serial: Seq<char>, platform: Seq<char>) -> Seq<char> {
    header_comment(id.vendor@, id.product@, id.revision@) + "[drive]\n"@ + toml_line(
        "manufacturer"@,
        id.vendor@,
    ) + toml_line("product"@, id.product@) + toml_line("revision"@, id.revision@) + toml_line(
        "serial"@,
        serial,
    ) + toml_line("firmware_date"@, date_text(id.firmware_date@)) + toml_line("platform"@, platform)
}

proof fn lemma_drive_lines(id: DriveIdentity, serial: Seq<char>, platform: Seq<char>)
    requires
        id.wf(),
    ensures
        ({
            let l = lines_of(drive_part(id, serial, platform));
            &&& is_whole(drive_part(id, serial, platform))
            &&& l.len() == 9
            &&& l[0].len() > 0 && l[0][0] == '#'
            &&& l[1].len() == 0
            &&& l[2] == "[drive]"@
            &&& l[3] == "manufacturer"@ + " = \""@ + toml_escaped(id.vendor@) + "\""@
            &&& l[4] == "product"@ + " = \""@ + toml_escaped(id.product@) + "\""@
            &&& l[5] == "revision"@ + " = \""@ + toml_escaped(id.revision@) + "\""@
            &&& l[6] == "serial"@ + " = \""@ + toml_escaped(serial) + "\""@
            &&& l[7] == "firmware_date"@ + " = \""@ + toml_escaped(date_text(id.firmware_date@))
                + "\""@
            &&& l[8] == "platform"@ + " = \""@ + toml_escaped(platform) + "\""@
        }),
{
    reveal_strlit("manufacturer");
    reveal_strlit("product");
    reveal_strlit("revision");
    reveal_strlit("serial");
    reveal_strlit("firmware_date");
    reveal_strlit("platform");
    lemma_head_lines(id);
    let s0 = header_comment(id.vendor@, id.product@, id.revision@) + "[drive]\n"@;
    let t1 = toml_line("manufacturer"@, id.vendor@);
    let t2 = toml_line("product"@, id.product@);
    let t3 = toml_line("revision"@, id.revision@);
    let t4 = toml_line("serial"@, serial);
    let t5 = toml_line("firmware_date"@, date_text(id.firmware_date@));
    let t6 = toml_line("platform"@, platform);
    lemma_toml_line("manufacturer"@, id.vendor@);
    lemma_toml_line("product"@, id.product@);
    lemma_toml_line("revision"@, id.revision@);
    lemma_toml_line("serial"@, serial);
    lemma_toml_line("firmware_date"@, date_text(id.firmware_date@));
    lemma_toml_line("platform"@, platform);
    lemma_lines_concat(s0, t1);
    lemma_lines_concat(s0 + t1, t2);
    lemma_lines_concat(s0 + t1 + t2, t3);
    lemma_lines_concat(s0 + t1 + t2 + t3, t4);
    lemma_lines_concat(s0 + t1 + t2 + t3 + t4, t5);
    lemma_lines_concat(s0 + t1 + t2 + t3 + t4 + t5, t6);
}

/// What stands behind a text stays behind it.
proof fn lemma_line_if(s: Seq<char>, x: Seq<char>, d: Option<Vec<u8>>, l: Seq<char>)
    ensures
        line_if(s + x, d, l) == s + line_if(x, d, l),
{
    assert(s + x + l =~= s + (x + l));
}

proof fn lemma_buffers_behind(s: Seq<char>, c: Capture)
    ensures
        buffer_section(s, c) == s + buffer_section(Seq::empty(), c),
{
    let e = Seq::<char>::empty();
    let h = "\n[read_buffer]\n"@;
    assert(s + e =~= s);
    assert(s + h =~= s + (e + h));
    let x0 = e + h;
    let l1 = "0xF1 = \"rb_f1.bin\"\n"@;
    let l2 = "mode6 = \"rb_mode6.bin\"\n"@;
    let l3 = "0xB0_04 = \"rb_b0_04.bin\"\n"@;
    let l4 = "0xB0_500000 = \"rb_b0_500000.bin\"\n"@;
    let l5 = "0x41 = \"wb_41.bin\"\n"@;
    let l6 = "0xB0_04_postknock = \"rb_b0_04_postknock.bin\"\n"@;
    let l7 = "0xB0_500000_postknock = \"rb_b0_500000_postknock.bin\"\n"@;
    let l8 = "0xF4 = \"rb_f4.bin\"\n"@;
    lemma_line_if(s, x0, c.rb_f1, l1);
    let x1 = line_if(x0, c.rb_f1, l1);
    lemma_line_if(s, x1, c.rb_mode6, l2);
    let x2 = line_if(x1, c.rb_mode6, l2);
    lemma_line_if(s, x2, c.rb_b0_04, l3);
    let x3 = line_if(x2, c.rb_b0_04, l3);
    lemma_line_if(s, x3, c.rb_b0_500000, l4);
    let x4 = line_if(x3, c.rb_b0_500000, l4);
    lemma_line_if(s, x4, c.wb_41, l5);
    let x5 = line_if(x4, c.wb_41, l5);
    lemma_line_if(s, x5, c.rb_b0_04_postknock, l6);
    let x6 = line_if(x5, c.rb_b0_04_postknock, l6);
    lemma_line_if(s, x6, c.rb_b0_500000_postknock, l7);
    let x7 = line_if(x6, c.rb_b0_500000_postknock, l7);
    lemma_line_if(s, x7, c.rb_f4, l8);
}

/// The part of a profile between the drive and its features.
pub open spec fn middle_part(matched: bool) -> Seq<char> {
    "profile_matched = "@ + bool_text(matched) + "\n\n"@ + "[files]\n"@
        + "inquiry = \"inquiry.bin\"\n"@ + "mode_2a = \"mode_2a.bin\"\n\n"@ + "[features]\n"@
}

/// A profile is the part about the drive, the middle, the features and the
/// buffers, one behind the other.
proof fn lemma_profile_parts(
    id: DriveIdentity,
    serial: Seq<char>,
    platform: Seq<char>,
    matched: bool,
    c: Capture,
)
    ensures
        drive_toml_text(id, serial, platform, matched, c) == drive_part(id, serial, platform) + (
        middle_part(matched) + feature_lines(c.features@, c.features@.len()) + buffer_section(
            Seq::empty(),
            c,
        )),
{
    let d = drive_part(id, serial, platform);
    let f = feature_lines(c.features@, c.features@.len());
    let b = buffer_section(Seq::empty(), c);
    let m = middle_part(matched);
    let x = d + "profile_matched = "@ + bool_text(matched) + "\n\n"@ + "[files]\n"@
        + "inquiry = \"inquiry.bin\"\n"@ + "mode_2a = \"mode_2a.bin\"\n\n"@ + "[features]\n"@;
    assert(x =~= d + m);
    lemma_buffers_behind(x + f, c);
    assert(x + f + b =~= d + (m + f + b));
}

/// Law: a profile reads back. Under `manufacturer`, `product`, `revision`,
/// `serial`, `firmware_date` and `platform` stands, once unescaped, exactly what
/// the drive is, in the section of the drive.
#[verifier::rlimit(60)]
pub proof fn law_profile_reads_back(
    id: DriveIdentity,
    serial: Seq<char>,
    platform: Seq<char>,
    matched: bool,
    c: Capture,
)
    requires
        id.wf(),
    ensures
        ({
            let lines = lines_of(drive_toml_text(id, serial, platform, matched, c));
            &&& read_key(lines, "manufacturer"@, 0) matches Some(v) && toml_unescaped(v) == Some(
                id.vendor@,
            )
            &&& read_key(lines, "product"@, 0) matches Some(v) && toml_unescaped(v) == Some(
                id.product@,
            )
            &&& read_key(lines, "revision"@, 0) matches Some(v) && toml_unescaped(v) == Some(
                id.revision@,
            )
            &&& read_key(lines, "serial"@, 0) matches Some(v) && toml_unescaped(v) == Some(serial)
            &&& read_key(lines, "firmware_date"@, 0) matches Some(v) && toml_unescaped(v) == Some(
                date_text(id.firmware_date@),
            )
            &&& read_key(lines, "platform"@, 0) matches Some(v) && toml_unescaped(v) == Some(
                platform,
            )
            &&& lines[2] == "[drive]"@
        }),
{
    let d = drive_part(id, serial, platform);
    lemma_profile_parts(id, serial, platform, matched, c);
    lemma_drive_lines(id, serial, platform);
    let rest = middle_part(matched) + feature_lines(c.features@, c.features@.len())
        + buffer_section(Seq::empty(), c);
    lemma_lines_concat(d, rest);
    let own = lines_of(d);
    let lines = lines_of(drive_toml_text(id, serial, platform, matched, c));
    assert(forall|i: int| 0 <= i < 9 ==> lines[i] == #[trigger] own[i]);
    assert(own[0] == lines[0] && own[1] == lines[1] && own[2] == lines[2] && own[3] == lines[3]
        && own[4] == lines[4] && own[5] == lines[5] && own[6] == lines[6] && own[7] == lines[7]
        && own[8] == lines[8]);
    law_toml_round_trip(id.vendor@);
    law_toml_round_trip(id.product@);
    law_toml_round_trip(id.revision@);
    law_toml_round_trip(serial);
    law_toml_round_trip(date_text(id.firmware_date@));
    law_toml_round_trip(platform);
    assert(lines[3].take("manufacturer"@.len() as int) =~= "manufacturer"@);
    assert(lines[4].take("product"@.len() as int) =~= "product"@);
    assert(lines[5].take("revision"@.len() as int) =~= "revision"@);
    assert(lines[6].take("serial"@.len() as int) =~= "serial"@);
    assert(lines[7].take("firmware_date"@.len() as int) =~= "firmware_date"@);
    lemma_keys_differ(lines);
    lemma_read_key(lines, "manufacturer"@, toml_escaped(id.vendor@), 3, 0);
    lemma_read_key(lines, "product"@, toml_escaped(id.product@), 4, 0);
    lemma_read_key(lines, "revision"@, toml_escaped(id.revision@), 5, 0);
    lemma_read_key(lines, "serial"@, toml_escaped(serial), 6, 0);
    lemma_read_key(
        lines,
        "firmware_date"@,
        toml_escaped(date_text(id.firmware_date@)),
        7,
        0,
    );
    lemma_read_key(lines, "platform"@, toml_escaped(platform), 8, 0);
}

/// No line about one key is taken for one about another.
proof fn lemma_keys_differ(lines: Seq<Seq<char>>)
    requires
        lines.len() >= 9,
        lines[0].len() > 0 && lines[0][0] == '#',
        lines[1].len() == 0,
        lines[2] == "[drive]"@,
        starts_with(lines[3], "manufacturer"@),
        starts_with(lines[4], "product"@),
        starts_with(lines[5], "revision"@),
        starts_with(lines[6], "serial"@),
        starts_with(lines[7], "firmware_date"@),
    ensures
        forall|j: int|
            0 <= j < 3 ==> !starts_with(#[trigger] lines[j], "manufacturer"@ + " = \""@),
        forall|j: int| 0 <= j < 4 ==> !starts_with(#[trigger] lines[j], "product"@ + " = \""@),
        forall|j: int| 0 <= j < 5 ==> !starts_with(#[trigger] lines[j], "revision"@ + " = \""@),
        forall|j: int| 0 <= j < 6 ==> !starts_with(#[trigger] lines[j], "serial"@ + " = \""@),
        forall|j: int|
            0 <= j < 7 ==> !starts_with(#[trigger] lines[j], "firmware_date"@ + " = \""@),
        forall|j: int| 0 <= j < 8 ==> !starts_with(#[trigger] lines[j], "platform"@ + " = \""@),
{
    reveal_strlit("[drive]");
    reveal_strlit("manufacturer");
    reveal_strlit("product");
    reveal_strlit("revision");
    reveal_strlit("serial");
    reveal_strlit("firmware_date");
    reveal_strlit("platform");
    reveal_strlit(" = \"");
    assert(lines[3].take(12)[0] == lines[3][0]);
    assert(lines[4].take(7)[0] == lines[4][0] && lines[4].take(7)[1] == lines[4][1]);
    assert(lines[5].take(8)[0] == lines[5][0]);
    assert(lines[6].take(6)[0] == lines[6][0]);
    assert(lines[7].take(13)[0] == lines[7][0]);
    lemma_other_start(lines[0], "manufacturer"@ + " = \""@);
    assert forall|j: int| 0 <= j < 3 implies !starts_with(
        #[trigger] lines[j],
        "manufacturer"@ + " = \""@,
    ) by {
        lemma_other_start(lines[j], "manufacturer"@ + " = \""@);
    }
    assert forall|j: int| 0 <= j < 4 implies !starts_with(
        #[trigger] lines[j],
        "product"@ + " = \""@,
    ) by {
        lemma_other_start(lines[j], "product"@ + " = \""@);
    }
    assert forall|j: int| 0 <= j < 5 implies !starts_with(
        #[trigger] lines[j],
        "revision"@ + " = \""@,
    ) by {
        lemma_other_start(lines[j], "revision"@ + " = \""@);
    }
    assert forall|j: int| 0 <= j < 6 implies !starts_with(
        #[trigger] lines[j],
        "serial"@ + " = \""@,
    ) by {
        lemma_other_start(lines[j], "serial"@ + " = \""@);
    }
    assert forall|j: int| 0 <= j < 7 implies !starts_with(
        #[trigger] lines[j],
        "firmware_date"@ + " = \""@,
    ) by {
        lemma_other_start(lines[j], "firmware_date"@ + " = \""@);
    }
    assert forall|j: int| 0 <= j < 8 implies !starts_with(
        #[trigger] lines[j],
        "platform"@ + " = \""@,
    ) by {
        lemma_other_start(lines[j], "platform"@ + " = \""@);
    }
}

/// A text that starts otherwise does not start with `p`.
proof fn lemma_other_start(s: Seq<char>, p: Seq<char>)
    requires
        p.len() >= 2,
    ensures
        s.len() < 2 || s[0] != p[0] || s[1] != p[1] ==> !starts_with(s, p),
{
    if starts_with(s, p) {
        assert(s.take(p.len() as int)[0] == s[0] && s.take(p.len() as int)[1] == s[1]);
    }
}

/// Law: a profile says whether the drive was matched, right behind the drive.
pub proof fn law_profile_says_whether_matched(
    id: DriveIdentity,
    serial: Seq<char>,
    platform: Seq<char>,
    matched: bool,
    c: Capture,
)
    requires
        id.wf(),
    ensures
        lines_of(drive_toml_text(id, serial, platform, matched, c))[9] == "profile_matched = "@ + (
        if matched {
            "true"@
        } else {
            "false"@
        }),
{
    let d = drive_part(id, serial, platform);
    let l = "profile_matched = "@ + bool_text(matched);
    let f = feature_lines(c.features@, c.features@.len());
    let b = buffer_section(Seq::empty(), c);
    lemma_profile_parts(id, serial, platform, matched, c);
    lemma_drive_lines(id, serial, platform);
    lemma_matched_line(matched);
    let m = middle_part(matched);
    let rest = m.skip((l.len() + 1) as int) + f + b;
    assert(m + f + b =~= l + seq!['\n'] + rest) by {
        assert(m =~= l + seq!['\n'] + m.skip((l.len() + 1) as int));
    }
    lemma_tenth_line(d, l, rest);
}

proof fn lemma_matched_line(matched: bool)
    ensures
        ({
            let l = "profile_matched = "@ + bool_text(matched);
            let m = middle_part(matched);
            &&& lacks(l, '\n')
            &&& l.len() < m.len()
            &&& m.take(l.len() as int) == l
            &&& m[l.len() as int] == '\n'
        }),
{
    reveal_strlit("profile_matched = ");
    reveal_strlit("true");
    reveal_strlit("false");
    reveal_strlit("\n\n");
    let l = "profile_matched = "@ + bool_text(matched);
    lemma_lacks_concat("profile_matched = "@, bool_text(matched), '\n');
    let m = middle_part(matched);
    let rest = "\n\n"@ + "[files]\n"@ + "inquiry = \"inquiry.bin\"\n"@
        + "mode_2a = \"mode_2a.bin\"\n\n"@ + "[features]\n"@;
    assert(m =~= l + rest);
    lemma_starts(l, rest);
    assert(m[l.len() as int] == rest[0]);
    assert(rest[0] == '\n');
}

proof fn lemma_tenth_line(d: Seq<char>, l: Seq<char>, rest: Seq<char>)
    requires
        is_whole(d),
        lines_of(d).len() == 9,
        lacks(l, '\n'),
    ensures
        lines_of(d + (l + seq!['\n'] + rest))[9] == l,
{
    lemma_one_line(l);
    lemma_lines_concat(l + seq!['\n'], rest);
    lemma_lines_concat(d, l + seq!['\n'] + rest);
}

/// Law: the file of a feature is named after its code, which reads back.
pub proof fn law_feature_file_reads_back(code: u16)
    ensures
        between(feature_file(code), "gc_"@, ".bin"@) matches Some(d) && d.len() == 4 && hex_value(d)
            == code,
{
    law_word_reads_back(code as nat);
    lemma_between("gc_"@, hex4(code as nat), ".bin"@);
}

/// Law: every feature of a drive is saved, in a file that is named after its code,
/// and the profile names that file for it.
pub proof fn law_every_feature_is_saved(
    id: DriveIdentity,
    serial: Seq<char>,
    platform: Seq<char>,
    matched: bool,
    c: Capture,
    i: int,
)
    requires
        0 <= i < c.features@.len(),
    ensures
        saved_files(c).contains((feature_file(c.features@[i].code), c.features@[i].data@)),
        has_text(
            drive_toml_text(id, serial, platform, matched, c),
            "0x"@ + hex4_upper(c.features@[i].code as nat) + " = \""@ + feature_file(
                c.features@[i].code,
            ) + "\""@,
        ),
        hex_value(hex4_upper(c.features@[i].code as nat)) == c.features@[i].code,
{
    reveal_strlit("\"  # ");
    reveal_strlit("\"");
    let f = c.features@[i];
    law_word_reads_back(f.code as nat);
    let n = c.features@.len();
    let s0 = seq![("inquiry.bin"@, c.inquiry@)] + feature_files(c.features@, n);
    lemma_feature_files(c.features@, n);
    assert(s0[i + 1] == (feature_file(f.code), f.data@));
    lemma_saved_is(c);
    lemma_with_files(s0, optional_files(c), 10, i + 1);
    assert(saved_files(c)[i + 1] == s0[i + 1]);
    let mark = "0x"@ + hex4_upper(f.code as nat) + " = \""@ + feature_file(f.code) + "\""@;
    let rest = "  # "@ + f.name@;
    reveal_strlit("  # ");
    assert(feature_line(f) =~= mark + rest);
    lemma_feature_line_in(c.features@, n, i);
    let e = Seq::<char>::empty();
    lemma_has_part(e, mark, rest);
    assert(e + mark + rest =~= feature_line(f));
    let all = feature_lines(c.features@, n);
    lemma_has_within(all, feature_line(f), mark);
    lemma_profile_parts(id, serial, platform, matched, c);
    let b = buffer_section(e, c);
    lemma_has_either(middle_part(matched), all, mark);
    lemma_has_either(middle_part(matched) + all, b, mark);
    lemma_has_either(drive_part(id, serial, platform), middle_part(matched) + all + b, mark);
}

/// What stands in a part of a text stands in the text.
proof fn lemma_has_within(s: Seq<char>, part: Seq<char>, p: Seq<char>)
    requires
        has_text(s, part),
        has_text(part, p),
    ensures
        has_text(s, p),
{
    let i = choose|i: int| occurs_at(s, part, i);
    let j = choose|j: int| occurs_at(part, p, j);
    let whole = s.subrange(i, i + part.len());
    assert(s.subrange(i + j, i + j + p.len()) =~= whole.subrange(j, j + p.len()));
    assert(occurs_at(s, p, i + j));
}

proof fn lemma_feature_files(f: Seq<Feature>, n: nat)
    requires
        n <= f.len(),
    ensures
        feature_files(f, n).len() == n,
        forall|i: int|
            0 <= i < n ==> #[trigger] feature_files(f, n)[i] == (feature_file(f[i].code), f[i].data@),
    decreases n,
{
    if n > 0 {
        lemma_feature_files(f, (n - 1) as nat);
    }
}

proof fn lemma_feature_line_in(f: Seq<Feature>, n: nat, i: int)
    requires
        0 <= i < n <= f.len(),
    ensures
        has_text(feature_lines(f, n), feature_line(f[i])),
    decreases n,
{
    let before = feature_lines(f, (n - 1) as nat);
    if i < n - 1 {
        lemma_feature_line_in(f, (n - 1) as nat, i);
        lemma_has_either(before, feature_line(f[n - 1]), feature_line(f[i]));
        lemma_has_either(before + feature_line(f[n - 1]), "\n"@, feature_line(f[i]));
    } else {
        lemma_has_part(before, feature_line(f[i]), "\n"@);
    }
}

/// `base`, and behind it those of the first `n` files that there are.
pub open spec fn with_files(
    base: Seq<(Seq<char>, Seq<u8>)>,
    files: Seq<(Seq<char>, Option<Vec<u8>>)>,
    n: nat,
) -> Seq<(Seq<char>, Seq<u8>)>
    decreases n,
{
    if n == 0 {
        base
    } else {
        with_file(with_files(base, files, (n - 1) as nat), files[n - 1].0, files[n - 1].1)
    }
}

proof fn lemma_with_files(
    base: Seq<(Seq<char>, Seq<u8>)>,
    files: Seq<(Seq<char>, Option<Vec<u8>>)>,
    n: nat,
    i: int,
)
    requires
        n <= files.len(),
    ensures
        with_files(base, files, n).len() == base.len() + how_many(files, n),
        0 <= i < base.len() ==> with_files(base, files, n)[i] == base[i],
        0 <= i < n ==> (files[i].1 matches Some(d) ==> with_files(base, files, n).contains(
            (files[i].0, d@),
        )),
    decreases n,
{
    if n > 0 {
        let m = (n - 1) as nat;
        lemma_with_files(base, files, m, i);
        let before = with_files(base, files, m);
        let all = with_files(base, files, n);
        if 0 <= i < n && files[i].1 is Some {
            let it = (files[i].0, files[i].1->0@);
            if i < m {
                let j = choose|j: int| 0 <= j < before.len() && before[j] == it;
                assert(all[j] == it);
            } else {
                assert(all[all.len() - 1] == it);
            }
        }
    }
}

/// What is saved is the inquiry and the features, and behind them the files that
/// there are.
proof fn lemma_saved_is(c: Capture)
    ensures
        saved_files(c) == with_files(
            seq![("inquiry.bin"@, c.inquiry@)] + feature_files(c.features@, c.features@.len()),
            optional_files(c),
            10,
        ),
{
    reveal_with_fuel(with_files, 11);
}

/// The files of the buffers and states of a drive, by name.
pub open spec fn optional_files(c: Capture) -> Seq<(Seq<char>, Option<Vec<u8>>)> {
    seq![
        ("rb_f1.bin"@, c.rb_f1),
        ("rb_mode6.bin"@, c.rb_mode6),
        ("rb_b0_04.bin"@, c.rb_b0_04),
        ("rb_b0_500000.bin"@, c.rb_b0_500000),
        ("rb_f4.bin"@, c.rb_f4),
        ("wb_41.bin"@, c.wb_41),
        ("rb_b0_04_postknock.bin"@, c.rb_b0_04_postknock),
        ("rb_b0_500000_postknock.bin"@, c.rb_b0_500000_postknock),
        ("rpc_state.bin"@, c.rpc_state),
        ("mode_2a.bin"@, c.mode_2a),
    ]
}

/// How many of the first `n` of them there are.
pub open spec fn how_many(files: Seq<(Seq<char>, Option<Vec<u8>>)>, n: nat) -> nat
    decreases n,
{
    if n == 0 {
        0
    } else if files[n - 1].1 is Some {
        how_many(files, (n - 1) as nat) + 1
    } else {
        how_many(files, (n - 1) as nat)
    }
}

/// Law: everything that was read out of a drive is saved, as it was read and each
/// under its own name: the inquiry first, and every buffer and state that there
/// is. Nothing else is saved.
#[verifier::rlimit(60)]
pub proof fn law_everything_read_is_saved(c: Capture, i: int)
    ensures
        saved_files(c).len() > 0 && saved_files(c)[0] == ("inquiry.bin"@, c.inquiry@),
        0 <= i < optional_files(c).len() ==> (optional_files(c)[i].1 matches Some(d)
            ==> saved_files(c).contains((optional_files(c)[i].0, d@))),
        saved_files(c).len() == 1 + c.features@.len() + how_many(optional_files(c), 10),
{
    let s0 = seq![("inquiry.bin"@, c.inquiry@)] + feature_files(c.features@, c.features@.len());
    lemma_feature_files(c.features@, c.features@.len());
    lemma_saved_is(c);
    lemma_with_files(s0, optional_files(c), 10, 0);
    lemma_with_files(s0, optional_files(c), 10, i);
    assert(s0[0] == ("inquiry.bin"@, c.inquiry@));
}

/// The lines of a profile about the vendor buffers, and the buffers.
pub open spec fn buffer_names(c: Capture) -> Seq<(Seq<char>, Option<Vec<u8>>)> {
    seq![
        ("0xF1 = \"rb_f1.bin\"\n"@, c.rb_f1),
        ("mode6 = \"rb_mode6.bin\"\n"@, c.rb_mode6),
        ("0xB0_04 = \"rb_b0_04.bin\"\n"@, c.rb_b0_04),
        ("0xB0_500000 = \"rb_b0_500000.bin\"\n"@, c.rb_b0_500000),
        ("0x41 = \"wb_41.bin\"\n"@, c.wb_41),
        ("0xB0_04_postknock = \"rb_b0_04_postknock.bin\"\n"@, c.rb_b0_04_postknock),
        ("0xB0_500000_postknock = \"rb_b0_500000_postknock.bin\"\n"@, c.rb_b0_500000_postknock),
        ("0xF4 = \"rb_f4.bin\"\n"@, c.rb_f4),
    ]
}

/// `s`, and behind it the first `n` lines whose buffers there are.
pub open spec fn with_lines(
    s: Seq<char>,
    names: Seq<(Seq<char>, Option<Vec<u8>>)>,
    n: nat,
) -> Seq<char>
    decreases n,
{
    if n == 0 {
        s
    } else {
        line_if(with_lines(s, names, (n - 1) as nat), names[n - 1].1, names[n - 1].0)
    }
}

proof fn lemma_with_lines(
    s: Seq<char>,
    names: Seq<(Seq<char>, Option<Vec<u8>>)>,
    n: nat,
    i: int,
)
    requires
        0 <= i < n <= names.len(),
        names[i].1 is Some,
    ensures
        has_text(with_lines(s, names, n), names[i].0),
    decreases n,
{
    let before = with_lines(s, names, (n - 1) as nat);
    if i < n - 1 {
        lemma_with_lines(s, names, (n - 1) as nat, i);
        lemma_has_either(before, names[n - 1].0, names[i].0);
    } else {
        lemma_has_part(before, names[i].0, Seq::empty());
        assert(before + names[i].0 + Seq::<char>::empty() =~= before + names[i].0);
    }
}

/// Law: every vendor buffer that was read is named in the profile, under its own
/// key and with the file that it is saved in; where none was read, there is no
/// section for them.
pub proof fn law_every_buffer_is_named(
    id: DriveIdentity,
    serial: Seq<char>,
    platform: Seq<char>,
    matched: bool,
    c: Capture,
    i: int,
)
    ensures
        0 <= i < buffer_names(c).len() ==> (buffer_names(c)[i].1 is Some ==> has_text(
            drive_toml_text(id, serial, platform, matched, c),
            buffer_names(c)[i].0,
        )),
        (forall|j: int| 0 <= j < buffer_names(c).len() ==> (#[trigger] buffer_names(c)[j]).1 is None)
            ==> drive_toml_text(id, serial, platform, matched, c) == drive_part(
            id,
            serial,
            platform,
        ) + (middle_part(matched) + feature_lines(c.features@, c.features@.len())),
{
    let names = buffer_names(c);
    lemma_profile_parts(id, serial, platform, matched, c);
    let e = Seq::<char>::empty();
    let b = buffer_section(e, c);
    let d = drive_part(id, serial, platform);
    let f = middle_part(matched) + feature_lines(c.features@, c.features@.len());
    if 0 <= i < names.len() && names[i].1 is Some {
        lemma_buffers_are(c, i);
        lemma_with_lines(e + "\n[read_buffer]\n"@, names, 8, i);
        lemma_has_either(f, b, names[i].0);
        lemma_has_either(d, f + b, names[i].0);
    }
    if forall|j: int| 0 <= j < names.len() ==> (#[trigger] names[j]).1 is None {
        assert(names[0].1 is None && names[1].1 is None && names[2].1 is None && names[3].1 is None
            && names[4].1 is None && names[5].1 is None && names[6].1 is None && names[7].1 is None);
        assert(f + b =~= f);
    }
}

proof fn lemma_buffers_are(c: Capture, i: int)
    requires
        0 <= i < buffer_names(c).len(),
        buffer_names(c)[i].1 is Some,
    ensures
        buffer_section(Seq::empty(), c) == with_lines(
            Seq::<char>::empty() + "\n[read_buffer]\n"@,
            buffer_names(c),
            8,
        ),
{
    reveal_with_fuel(with_lines, 9);
}

/// What stands in a text stands in a longer one.
proof fn lemma_has_end(x: Seq<char>, a: Seq<char>, b: Seq<char>)
    ensures
        has_text(x + a + b + "\n"@, a + b + "\n"@),
{
    let n = "\n"@;
    let p = a + b + n;
    let s = x + a + b + n;
    assert(s.subrange(x.len() as int, (x.len() + p.len()) as int) =~= p);
    assert(occurs_at(s, p, x.len() as int));
}

/// Law: the report about a drive says what the drive is, each under its own label
/// and on a line of its own, how many features were captured, and with what it
/// was captured.
#[verifier::rlimit(60)]
pub proof fn law_report_says_what_the_drive_is(
    id: DriveIdentity,
    serial: Seq<char>,
    platform: Seq<char>,
    profile: Seq<char>,
    c: Capture,
    zip_b64: Seq<char>,
)
    ensures
        ({
            let r = drive_report(id, serial, platform, profile, c, zip_b64);
            &&& has_text(r, "Manufacturer:    "@ + id.vendor@ + "\n"@)
            &&& has_text(r, "Product:         "@ + id.product@ + "\n"@)
            &&& has_text(r, "Revision:        "@ + id.revision@ + "\n"@)
            &&& has_text(r, "Serial:          "@ + serial + "\n"@)
            &&& has_text(r, "Firmware date:   "@ + date_text(id.firmware_date@) + "\n"@)
            &&& has_text(r, "Platform:        "@ + platform + "\n"@)
            &&& has_text(
                r,
                "Firmware:        "@ + (id.revision@ + "/"@ + id.vendor_specific@) + "\n"@,
            )
            &&& has_text(r, "Profile:         "@ + profile + "\n"@)
        }),
{
    broadcast use crate::reading::lemma_has_more;

    let x0 = "## Drive Profile\n\n"@ + "```\n"@;
    let x1 = x0 + "Manufacturer:    "@ + id.vendor@ + "\n"@;
    let x2 = x1 + "Product:         "@ + id.product@ + "\n"@;
    let x3 = x2 + "Revision:        "@ + id.revision@ + "\n"@;
    let x4 = x3 + "Serial:          "@ + serial + "\n"@;
    let x5 = x4 + "Firmware date:   "@ + date_text(id.firmware_date@) + "\n"@;
    let x6 = x5 + "Platform:        "@ + platform + "\n"@;
    let x7 = x6 + "Firmware:        "@ + (id.revision@ + "/"@ + id.vendor_specific@) + "\n"@;
    lemma_has_end(x0, "Manufacturer:    "@, id.vendor@);
    lemma_has_end(x1, "Product:         "@, id.product@);
    lemma_has_end(x2, "Revision:        "@, id.revision@);
    lemma_has_end(x3, "Serial:          "@, serial);
    lemma_has_end(x4, "Firmware date:   "@, date_text(id.firmware_date@));
    lemma_has_end(x5, "Platform:        "@, platform);
    lemma_has_end(x6, "Firmware:        "@, id.revision@ + "/"@ + id.vendor_specific@);
    lemma_has_end(x7, "Profile:         "@, profile);
}

/// Law: the report about a drive holds how many features were captured, the raw
/// data of the drive and the archive.
#[verifier::rlimit(60)]
pub proof fn law_report_holds_the_data(
    id: DriveIdentity,
    serial: Seq<char>,
    platform: Seq<char>,
    profile: Seq<char>,
    c: Capture,
    zip_b64: Seq<char>,
)
    ensures
        ({
            let r = drive_report(id, serial, platform, profile, c, zip_b64);
            &&& has_text(r, "Features captured: "@ + dec(c.features@.len()))
            &&& has_text(r, wrapped(zip_b64, 76))
            &&& has_text(r, joined(dump_rows(c.inquiry@), "\n  "@))
            &&& has_text(r, dec(c.inquiry@.len()) + " bytes):"@)
            &&& c.gc_010c@.len() > 0 ==> has_text(r, joined(dump_rows(c.gc_010c@), "\n  "@))
            &&& c.gc_010c@.len() == 0 ==> has_text(r, "GET_CONFIG 010C: not available"@)
        }),
{
    let r = drive_report(id, serial, platform, profile, c, zip_b64);
    let e = Seq::<char>::empty();
    let n = dec(c.features@.len());
    let x = "## Drive Profile\n\n"@ + "```\n"@ + "Manufacturer:    "@ + id.vendor@ + "\n"@
        + "Product:         "@ + id.product@ + "\n"@ + "Revision:        "@ + id.revision@ + "\n"@
        + "Serial:          "@ + serial + "\n"@ + "Firmware date:   "@ + date_text(
        id.firmware_date@,
    ) + "\n"@ + "Platform:        "@ + platform + "\n"@ + "Firmware:        "@ + (id.revision@ + "/"@
        + id.vendor_specific@) + "\n"@ + "Profile:         "@ + profile + "\n"@ + "```\n\n"@;
    let y = x + "Features captured: "@ + n + "\n\n"@;
    let raw = raw_identity(c);
    let fold = folded_archive("Profile data (base64 zip)"@, zip_b64);
    let end = "---\n*Captured by `"@ + CAPTURE_COMMAND@ + " --share`*\n"@;
    assert(r =~= y + raw + fold + end);
    lemma_has_part(x, "Features captured: "@ + n, "\n\n"@);
    assert(x + ("Features captured: "@ + n) + "\n\n"@ =~= y);
    lemma_in_report(y, raw, fold, end, "Features captured: "@ + n);
    lemma_has_part(
        "<details><summary>"@ + "Profile data (base64 zip)"@ + "</summary>\n\n```\n"@,
        wrapped(zip_b64, 76),
        "```\n\n</details>\n\n"@,
    );
    lemma_in_report(y, raw, fold, end, wrapped(zip_b64, 76));
    lemma_raw_identity(c);
    lemma_in_report(y, raw, fold, end, joined(dump_rows(c.inquiry@), "\n  "@));
    lemma_in_report(y, raw, fold, end, dec(c.inquiry@.len()) + " bytes):"@);
    if c.gc_010c@.len() > 0 {
        lemma_in_report(y, raw, fold, end, joined(dump_rows(c.gc_010c@), "\n  "@));
    } else {
        lemma_in_report(y, raw, fold, end, "GET_CONFIG 010C: not available"@);
    }
}

proof fn lemma_in_report(
    y: Seq<char>,
    raw: Seq<char>,
    fold: Seq<char>,
    end: Seq<char>,
    p: Seq<char>,
)
    requires
        has_text(y, p) || has_text(raw, p) || has_text(fold, p),
    ensures
        has_text(y + raw + fold + end, p),
{
    if !has_text(fold, p) {
        lemma_has_either(y, raw, p);
    }
    lemma_has_either(y + raw, fold, p);
    lemma_has_either(y + raw + fold, end, p);
}

proof fn lemma_raw_identity(c: Capture)
    ensures
        ({
            let r = raw_identity(c);
            &&& has_text(r, joined(dump_rows(c.inquiry@), "\n  "@))
            &&& has_text(r, dec(c.inquiry@.len()) + " bytes):"@)
            &&& c.gc_010c@.len() > 0 ==> has_text(r, joined(dump_rows(c.gc_010c@), "\n  "@))
            &&& c.gc_010c@.len() == 0 ==> has_text(r, "GET_CONFIG 010C: not available"@)
        }),
{
    broadcast use crate::reading::lemma_has_more;

    reveal_strlit(" bytes):\n  ");
    reveal_strlit(" bytes):");
    reveal_strlit("\n  ");
    reveal_strlit("GET_CONFIG 010C: not available");
    reveal_strlit("GET_CONFIG 010C: not available\n");
    let e = Seq::<char>::empty();
    let dump = joined(dump_rows(c.inquiry@), "\n  "@);
    let n = dec(c.inquiry@.len());
    let x = "### Raw identity\n\n"@ + "```\n"@ + "INQUIRY[4] (additional length): 0x"@ + hex2_upper(
        announced_length(c.inquiry@),
    ) + "\n"@ + "INQUIRY ("@;
    let y = x + n + " bytes):\n  "@;
    let z = y + dump;
    lemma_has_part(x, n + " bytes):"@, "\n  "@);
    assert(x + (n + " bytes):"@) + "\n  "@ =~= y);
    lemma_has_part(y, dump, e);
    assert(y + dump + e =~= z);
    let config = if c.gc_010c@.len() > 0 {
        "GET_CONFIG 010C ("@ + dec(c.gc_010c@.len()) + " bytes):\n  "@ + joined(
            dump_rows(c.gc_010c@),
            "\n  "@,
        ) + "\n"@
    } else {
        "GET_CONFIG 010C: not available\n"@
    };
    let r = raw_identity(c);
    assert(r == z + "\n"@ + config + "```\n\n"@);
    if c.gc_010c@.len() > 0 {
        let g = joined(dump_rows(c.gc_010c@), "\n  "@);
        lemma_has_part(
            "GET_CONFIG 010C ("@ + dec(c.gc_010c@.len()) + " bytes):\n  "@,
            g,
            "\n"@,
        );
        lemma_has_either(z + "\n"@, config, g);
    } else {
        let g = "GET_CONFIG 010C: not available"@;
        lemma_has_part(e, g, "\n"@);
        reveal_strlit("\n");
        assert(e + g + "\n"@ =~= config);
        lemma_has_either(z + "\n"@, config, g);
    }
}

/// A text without its line ends.
pub open spec fn unwrapped(s: Seq<char>) -> Seq<char>
    decreases s.len(),
{
    if s.len() == 0 {
        s
    } else if s.last() == '\n' {
        unwrapped(s.drop_last())
    } else {
        unwrapped(s.drop_last()).push(s.last())
    }
}

proof fn lemma_unwrapped_concat(a: Seq<char>, b: Seq<char>)
    ensures
        unwrapped(a + b) == unwrapped(a) + unwrapped(b),
    decreases b.len(),
{
    if b.len() == 0 {
        assert(a + b =~= a);
        assert(unwrapped(a) + unwrapped(b) =~= unwrapped(a));
    } else {
        assert((a + b).drop_last() =~= a + b.drop_last());
        lemma_unwrapped_concat(a, b.drop_last());
        assert(unwrapped(a + b) =~= unwrapped(a) + unwrapped(b));
    }
}

proof fn lemma_unwrapped_plain(s: Seq<char>)
    requires
        lacks(s, '\n'),
    ensures
        unwrapped(s) == s,
        unwrapped(s.push('\n')) == s,
    decreases s.len(),
{
    assert(s.push('\n').drop_last() =~= s);
    if s.len() > 0 {
        assert(s[s.len() - 1] != '\n');
        assert forall|i: int| 0 <= i < s.drop_last().len() implies #[trigger] s.drop_last()[i]
            != '\n' by {
            assert(s[i] != '\n');
        }
        lemma_unwrapped_plain(s.drop_last());
        assert(s.drop_last().push(s.last()) =~= s);
    }
}

/// Law: a text that is broken into lines reads back: without the line ends it is
/// the text, and no line is longer than it may be.
pub proof fn law_wrapped_text_reads_back(s: Seq<char>, width: nat)
    requires
        width > 0,
        lacks(s, '\n'),
    ensures
        unwrapped(wrapped(s, width)) == s,
        is_whole(wrapped(s, width)),
        forall|i: int|
            0 <= i < lines_of(wrapped(s, width)).len() ==> (#[trigger] lines_of(wrapped(s, width))[i]).len()
                <= width,
    decreases s.len(),
{
    if s.len() == 0 {
    } else if s.len() <= width {
        lemma_unwrapped_plain(s);
        lemma_one_line(s);
        assert(s.push('\n') =~= s + seq!['\n']);
    } else {
        let a = s.take(width as int);
        let b = s.skip(width as int);
        assert forall|i: int| 0 <= i < a.len() implies #[trigger] a[i] != '\n' by {
            assert(s[i] != '\n');
        }
        assert forall|i: int| 0 <= i < b.len() implies #[trigger] b[i] != '\n' by {
            assert(s[width + i] != '\n');
        }
        law_wrapped_text_reads_back(b, width);
        lemma_unwrapped_plain(a);
        lemma_unwrapped_concat(a.push('\n'), wrapped(b, width));
        assert(a + b =~= s);
        lemma_one_line(a);
        assert(a.push('\n') =~= a + seq!['\n']);
        lemma_lines_concat(a + seq!['\n'], wrapped(b, width));
        let l = lines_of(wrapped(s, width));
        assert(l =~= seq![a] + lines_of(wrapped(b, width)));
    }
}

/// Law: a dump shows every byte, thirty-two to a row, two digits each that read
/// back.
pub proof fn law_dump_reads_back(b: Seq<u8>, i: int)
    requires
        0 <= i < b.len(),
    ensures
        i / 32 < dump_rows(b).len(),
        has_text(dump_rows(b)[i / 32], hex2(b[i] as nat)),
        hex_value(hex2(b[i] as nat)) == b[i],
    decreases b.len(),
{
    law_byte_reads_back(b[i] as nat);
    if b.len() <= 32 {
        let cells = b.map_values(|x: u8| hex2(x as nat));
        law_joined_has_each_part(cells, " "@, i);
    } else if i < 32 {
        let t = b.take(32);
        let cells = t.map_values(|x: u8| hex2(x as nat));
        law_joined_has_each_part(cells, " "@, i);
        assert(cells[i] == hex2(b[i] as nat));
        assert(dump_rows(b)[0] == hex_row(t));
    } else {
        law_dump_reads_back(b.skip(32), i - 32);
        assert(dump_rows(b)[i / 32] == dump_rows(b.skip(32))[(i - 32) / 32]);
    }
}

/// Law: a date of the firmware is shown as year, month and day, each of which
/// reads back; one that is too short or no ASCII is shown as it is.
pub proof fn law_date_reads_back(s: Seq<char>)
    ensures
        s.len() < 8 || !vstd::utf8::is_ascii_chars(s) ==> date_text(s) == s,
        s.len() >= 8 && vstd::utf8::is_ascii_chars(s) ==> {
            let d = date_text(s);
            &&& d.len() == 10
            &&& d[4] == '-' && d[7] == '-'
            &&& d.subrange(5, 7) == s.subrange(4, 6)
            &&& d.subrange(8, 10) == s.subrange(6, 8)
            &&& d.subrange(2, 4) == s.subrange(2, 4)
            &&& if s.len() >= 12 && s[0] == '2' && s[1] == '1' {
                d[0] == '2' && d[1] == '0'
            } else {
                d[0] == s[0] && d[1] == s[1]
            }
        },
{
    reveal_strlit("20");
    reveal_strlit("-");
    if s.len() >= 8 && vstd::utf8::is_ascii_chars(s) {
        let d = date_text(s);
        assert(d.subrange(5, 7) =~= s.subrange(4, 6));
        assert(d.subrange(8, 10) =~= s.subrange(6, 8));
        assert(d.subrange(2, 4) =~= s.subrange(2, 4));
    }
}

/// Law: what is spliced in takes the place of as many bytes, and no other byte
/// changes.
pub proof fn law_splicing_changes_nothing_else(data: Seq<u8>, at: int, by: Seq<u8>, i: int)
    requires
        0 <= at,
        at + by.len() <= data.len(),
        0 <= i < data.len(),
    ensures
        spliced(data, at, by).len() == data.len(),
        at <= i < at + by.len() ==> spliced(data, at, by)[i] == by[i - at],
        i < at || i >= at + by.len() ==> spliced(data, at, by)[i] == data[i],
{
}

/// Law: the block about a drive says where it is and what it is, each behind its
/// own label and in this order; the serial number is the drive's own, or what
/// stands in for it.
#[verifier::rlimit(60)]
pub proof fn law_drive_block_says_what_the_drive_is(
    c: Seq<(Seq<char>, Seq<char>)>,
    raw: DriveId,
    device: Seq<char>,
    masked: Option<Seq<char>>,
)
    ensures
        ({
            let b = identity_block(c, raw, device, shown_serial(raw, masked));
            let serial = match masked {
                Some(m) => m,
                None => identity_field(raw.serial_number@),
            };
            &&& b.len() == 6
            &&& is_labelled(b[0], text_of(c, "drive.device"@), device)
            &&& is_labelled(b[1], text_of(c, "drive.manufacturer"@), identity_field(raw.vendor_id@))
            &&& is_labelled(b[2], text_of(c, "drive.product"@), identity_field(raw.product_id@))
            &&& is_labelled(
                b[3],
                text_of(c, "drive.revision"@),
                identity_field(raw.product_revision@),
            )
            &&& is_labelled(b[4], text_of(c, "drive.serial"@), serial)
            &&& is_labelled(
                b[5],
                text_of(c, "drive.firmware_date"@),
                date_text(identity_field(raw.firmware_date@)),
            )
        }),
{
    reveal_strlit("  ");
    reveal_strlit(":              ");
    reveal_strlit(":        ");
    reveal_strlit(":             ");
    reveal_strlit(":            ");
    reveal_strlit(":       ");
    let serial = shown_serial(raw, masked);
    lemma_labelled(text_of(c, "drive.device"@), ":              "@, device);
    lemma_labelled(
        text_of(c, "drive.manufacturer"@),
        ":        "@,
        identity_field(raw.vendor_id@),
    );
    lemma_labelled(
        text_of(c, "drive.product"@),
        ":             "@,
        identity_field(raw.product_id@),
    );
    lemma_labelled(
        text_of(c, "drive.revision"@),
        ":            "@,
        identity_field(raw.product_revision@),
    );
    lemma_labelled(text_of(c, "drive.serial"@), ":       "@, serial);
    lemma_labelled(
        text_of(c, "drive.firmware_date"@),
        ":       "@,
        date_text(identity_field(raw.firmware_date@)),
    );
}

/// A line that shows a value behind its label: two spaces, the label, a colon,
/// spaces and the value.
pub open spec fn is_labelled(line: Seq<char>, label: Seq<char>, value: Seq<char>) -> bool {
    between(line, "  "@ + label + ":"@, value) matches Some(gap) && gap.len() > 0 && forall|i: int|
        0 <= i < gap.len() ==> #[trigger] gap[i] == ' '
}

proof fn lemma_labelled(label: Seq<char>, gap: Seq<char>, value: Seq<char>)
    requires
        gap.len() > 1,
        gap[0] == ':',
        forall|i: int| 0 < i < gap.len() ==> #[trigger] gap[i] == ' ',
    ensures
        is_labelled(block_line(label, gap, value), label, value),
{
    reveal_strlit(":");
    let g = gap.skip(1);
    assert(gap =~= ":"@ + g);
    lemma_between("  "@ + label + ":"@, g, value);
    assert(block_line(label, gap, value) =~= "  "@ + label + ":"@ + g + value);
    assert forall|i: int| 0 <= i < g.len() implies #[trigger] g[i] == ' ' by {
        assert(g[i] == gap[i + 1]);
    }
}

/// Law: what is printed of a captured profile says what the drive is, and how many
/// features were captured, each behind its own label.
#[verifier::rlimit(60)]
pub proof fn law_profile_summary_says_what_was_captured(
    c: Seq<(Seq<char>, Seq<char>)>,
    id: DriveIdentity,
    serial: Seq<char>,
    platform: Seq<char>,
    profile: Seq<char>,
    features: nat,
)
    ensures
        ({
            let b = profile_summary(c, id, serial, platform, profile, features);
            &&& b.len() == 9
            &&& is_labelled(
                b[2],
                text_of(c, "drive.submit_drive"@),
                id.vendor@ + " "@ + id.product@ + " "@ + id.revision@,
            )
            &&& is_labelled(b[3], text_of(c, "drive.submit_serial"@), serial)
            &&& is_labelled(b[4], text_of(c, "drive.submit_platform"@), platform)
            &&& is_labelled(
                b[5],
                text_of(c, "drive.submit_firmware"@),
                id.revision@ + "/"@ + id.vendor_specific@,
            )
            &&& is_labelled(b[6], text_of(c, "drive.submit_profile"@), profile)
            &&& is_labelled(
                b[7],
                text_of(c, "drive.submit_features"@),
                dec(features) + " captured"@,
            )
        }),
{
    reveal_strlit(":    ");
    reveal_strlit(":   ");
    reveal_strlit(": ");
    reveal_strlit(":  ");
    lemma_labelled(
        text_of(c, "drive.submit_drive"@),
        ":    "@,
        id.vendor@ + " "@ + id.product@ + " "@ + id.revision@,
    );
    lemma_labelled(text_of(c, "drive.submit_serial"@), ":   "@, serial);
    lemma_labelled(text_of(c, "drive.submit_platform"@), ": "@, platform);
    lemma_labelled(
        text_of(c, "drive.submit_firmware"@),
        ": "@,
        id.revision@ + "/"@ + id.vendor_specific@,
    );
    lemma_labelled(text_of(c, "drive.submit_profile"@), ":  "@, profile);
    lemma_labelled(text_of(c, "drive.submit_features"@), ": "@, dec(features) + " captured"@);
}

/// Law: the listing of a drive holds the block about the drive, unchanged, and
/// behind it its platform, firmware and profile, each behind its own label; and
/// how to share it, unless that is what was asked for.
pub proof fn law_drive_listing_holds_the_block(
    c: Seq<(Seq<char>, Seq<char>)>,
    version: Seq<char>,
    block: Seq<Seq<char>>,
    platform: Seq<char>,
    firmware: Seq<char>,
    profile: Seq<char>,
    share: bool,
)
    ensures
        ({
            let l = drive_listing(c, version, block, platform, firmware, profile, share);
            let n = block.len() as int;
            &&& l.len() == n + 9 + (if share {
                0int
            } else {
                1
            })
            &&& ends_with(l[0], version)
            &&& l.subrange(3, 3 + n) == block
            &&& is_labelled(l[n + 5], text_of(c, "drive.platform"@), platform)
            &&& is_labelled(l[n + 6], text_of(c, "drive.firmware_version"@), firmware)
            &&& is_labelled(l[n + 7], text_of(c, "drive.profile"@), profile)
            &&& !share ==> l[n + 9] == text_of(c, "drive.share_hint"@)
        }),
{
    reveal_strlit(":      ");
    reveal_strlit(":    ");
    reveal_strlit(":             ");
    let l = drive_listing(c, version, block, platform, firmware, profile, share);
    lemma_starts("freemkv "@, version);
    lemma_labelled(text_of(c, "drive.platform"@), ":      "@, platform);
    lemma_labelled(text_of(c, "drive.firmware_version"@), ":    "@, firmware);
    lemma_labelled(text_of(c, "drive.profile"@), ":             "@, profile);
    assert(l.subrange(3, 3 + block.len() as int) =~= block);
}

/// A flag of the drive listing that stands by itself.
pub open spec fn is_drive_flag(a: Seq<char>) -> bool {
    is_share(a) || is_mask(a) || is_quiet(a) || is_verbose(a)
}

/// The flag that asks to share.
pub open spec fn is_share(a: Seq<char>) -> bool {
    a == "--share"@ || a == "-s"@
}

/// The flag that asks to mask.
pub open spec fn is_mask(a: Seq<char>) -> bool {
    a == "--mask"@ || a == "-m"@
}

/// The flag that asks for less.
pub open spec fn is_quiet(a: Seq<char>) -> bool {
    a == "--quiet"@ || a == "-q"@
}

/// The flags that ask for more.
pub open spec fn is_verbose(a: Seq<char>) -> bool {
    a == "--verbose"@ || a == "-v"@ || a == "-vv"@ || a == "-vvv"@
}

/// Some argument from position `i` on is such a flag.
pub open spec fn some_from(args: Seq<Seq<char>>, i: int, f: spec_fn(Seq<char>) -> bool) -> bool {
    exists|j: int| i <= j < args.len() && f(#[trigger] args[j])
}

/// Law: the flags of the drive listing say what they say, in whatever order and
/// however often they are given: each is on if and only if it was given.
pub proof fn law_drive_flags_are_what_was_given(args: Seq<Seq<char>>, i: int, f: DriveFlags)
    requires
        0 <= i <= args.len(),
        forall|j: int| i <= j < args.len() ==> is_drive_flag(#[trigger] args[j]),
    ensures
        drive_flags_from(args, i, f) matches DriveAnswer::Flags(g) && {
            &&& g.share == (f.share || some_from(args, i, |a: Seq<char>| is_share(a)))
            &&& g.mask == (f.mask || some_from(args, i, |a: Seq<char>| is_mask(a)))
            &&& g.quiet == (f.quiet || some_from(args, i, |a: Seq<char>| is_quiet(a)))
            &&& g.verbose == (f.verbose || some_from(args, i, |a: Seq<char>| is_verbose(a)))
        },
    decreases args.len() - i,
{
    reveal_strlit("--share");
    reveal_strlit("-s");
    reveal_strlit("--mask");
    reveal_strlit("-m");
    reveal_strlit("--quiet");
    reveal_strlit("-q");
    reveal_strlit("--verbose");
    reveal_strlit("-v");
    reveal_strlit("-vv");
    reveal_strlit("-vvv");
    assert("--share"@[2] == 's' && "--mask"@[2] == 'm' && "--quiet"@[2] == 'q' && "--verbose"@[2]
        == 'v' && "-s"@[1] == 's' && "-m"@[1] == 'm' && "-q"@[1] == 'q' && "-v"@[1] == 'v'
        && "-vv"@[1] == 'v' && "-vvv"@[1] == 'v');
    assert("--share"@.len() == 7 && "--mask"@.len() == 6 && "--quiet"@.len() == 7
        && "--verbose"@.len() == 9);
    if i < args.len() {
        let a = args[i];
        assert(is_drive_flag(a));
        let g = if is_share(a) {
            DriveFlags { share: true, ..f }
        } else if is_mask(a) {
            DriveFlags { mask: true, ..f }
        } else if is_quiet(a) {
            DriveFlags { quiet: true, ..f }
        } else {
            DriveFlags { verbose: true, ..f }
        };
        law_drive_flags_are_what_was_given(args, i + 1, g);
        lemma_some_from(args, i, |a: Seq<char>| is_share(a));
        lemma_some_from(args, i, |a: Seq<char>| is_mask(a));
        lemma_some_from(args, i, |a: Seq<char>| is_quiet(a));
        lemma_some_from(args, i, |a: Seq<char>| is_verbose(a));
    }
}

pub proof fn lemma_some_from(args: Seq<Seq<char>>, i: int, f: spec_fn(Seq<char>) -> bool)
    requires
        0 <= i < args.len(),
    ensures
        some_from(args, i, f) == (f(args[i]) || some_from(args, i + 1, f)),
{
    if some_from(args, i, f) && !f(args[i]) {
        let j = choose|j: int| i <= j < args.len() && f(#[trigger] args[j]);
        assert(i + 1 <= j < args.len() && f(args[j]));
    }
    if f(args[i]) {
        assert(i <= i < args.len() && f(args[i]));
    }
}

} // verus!

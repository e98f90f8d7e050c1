//! `freemkv info disc://`: the drive, and the profile of it that can be shared.

use crate::disc_info::{lower_case, opt_str, sanitize, text_in_lower_case};
use crate::encode::{
    component_of, date_text, dump_rows, format_date, hex_dump, push_wrapped, sanitize_component,
    toml_escape, toml_escaped, wrapped,
};
use crate::strings::{
    Catalog, arg_texts, filled, is_safe, lemma_safe_concat, lemma_safe_trimmed, sanitized, text_of,
};
use crate::text::{
    CharClass, dec, dec_text, drop_leading, hex2_upper, hex4, hex4_upper, joined, plus_if, push_dec,
    push_hex2_upper, push_hex4, push_hex4_upper, push_text, push_texts, same_text, texts, trim_text,
    trimmed,
};
use vstd::prelude::*;
use vstd::string::*;

verus! {

/// The command that is named in what leaves this machine.
pub const CAPTURE_COMMAND: &'static str = "freemkv info disc://";

/// What a drive's firmware says of it, as it says it.
#[derive(Clone, Debug)]
pub struct DriveId {
    pub vendor_id: String,
    pub product_id: String,
    pub product_revision: String,
    pub vendor_specific: String,
    pub serial_number: String,
    pub firmware_date: String,
}

/// What a drive's firmware says of it, fit to be shown: every field is
/// sanitised once, here.
#[derive(Clone, Debug)]
pub struct DriveIdentity {
    pub vendor: String,
    pub product: String,
    pub revision: String,
    pub vendor_specific: String,
    pub serial: String,
    pub firmware_date: String,
}

/// A field of the firmware as it is shown: sanitised, then trimmed, since
/// taking a character out can lay white space bare.
pub open spec fn identity_field(s: Seq<char>) -> Seq<char> {
    trimmed(sanitized(s), CharClass::White)
}

impl DriveIdentity {
    /// No field holds a character that must not be shown.
    pub open spec fn wf(self) -> bool {
        is_safe(self.vendor@) && is_safe(self.product@) && is_safe(self.revision@) && is_safe(
            self.vendor_specific@,
        ) && is_safe(self.serial@) && is_safe(self.firmware_date@)
    }

    /// A field of the firmware as it is shown.
    pub fn field(s: &str) -> (r: String)
        ensures
            r@ == identity_field(s@),
            is_safe(r@),
    {
        let clean = sanitize(s);
        proof {
            lemma_safe_trimmed(clean@, CharClass::White);
            lemma_safe_trimmed(drop_leading(clean@, CharClass::White), CharClass::White);
        }
        trim_text(clean.as_str())
    }

    /// The identity of a drive, sanitised.
    pub fn from_drive(id: &DriveId) -> (r: Self)
        ensures
            r.vendor@ == identity_field(id.vendor_id@),
            r.product@ == identity_field(id.product_id@),
            r.revision@ == identity_field(id.product_revision@),
            r.vendor_specific@ == identity_field(id.vendor_specific@),
            r.serial@ == identity_field(id.serial_number@),
            r.firmware_date@ == identity_field(id.firmware_date@),
            r.wf(),
    {
        DriveIdentity {
            vendor: Self::field(id.vendor_id.as_str()),
            product: Self::field(id.product_id.as_str()),
            revision: Self::field(id.product_revision.as_str()),
            vendor_specific: Self::field(id.vendor_specific.as_str()),
            serial: Self::field(id.serial_number.as_str()),
            firmware_date: Self::field(id.firmware_date.as_str()),
        }
    }

    /// The version of the firmware: the revision and what the vendor adds.
    pub fn firmware_version(&self) -> (r: String)
        ensures
            r@ == self.revision@ + "/"@ + self.vendor_specific@,
    {
        let mut s = self.revision.clone();
        s.append("/");
        s.append(self.vendor_specific.as_str());
        s
    }

    /// The serial number as it may be shown: `masked`, where it is to be masked,
    /// in place of the sanitised one.
    pub fn serial_display(&self, masked: Option<&str>) -> (r: String)
        ensures
            r@ == (match masked {
                Some(m) => m@,
                None => self.serial@,
            }),
    {
        match masked {
            Some(m) => m.to_owned(),
            None => self.serial.clone(),
        }
    }
}

/// One line of the drive block: a label, a gap and a value.
pub open spec fn block_line(label: Seq<char>, gap: Seq<char>, value: Seq<char>) -> Seq<char> {
    "  "@ + label + gap + value
}

fn block_line_text(label: String, gap: &str, value: &str) -> (r: String)
    ensures
        r@ == block_line(label@, gap@, value@),
{
    let mut s = "  ".to_owned();
    s.append(label.as_str());
    s.append(gap);
    s.append(value);
    s
}

/// The block about a drive: six lines.
pub open spec fn identity_block(
    c: Seq<(Seq<char>, Seq<char>)>,
    raw: DriveId,
    device: Seq<char>,
    serial: Seq<char>,
) -> Seq<Seq<char>> {
    seq![
        block_line(text_of(c, "drive.device"@), ":              "@, device),
        block_line(
            text_of(c, "drive.manufacturer"@),
            ":        "@,
            identity_field(raw.vendor_id@),
        ),
        block_line(
            text_of(c, "drive.product"@),
            ":             "@,
            identity_field(raw.product_id@),
        ),
        block_line(
            text_of(c, "drive.revision"@),
            ":            "@,
            identity_field(raw.product_revision@),
        ),
        block_line(text_of(c, "drive.serial"@), ":       "@, serial),
        block_line(
            text_of(c, "drive.firmware_date"@),
            ":       "@,
            date_text(identity_field(raw.firmware_date@)),
        ),
    ]
}

/// The serial number that is shown of a drive.
pub open spec fn shown_serial(raw: DriveId, masked: Option<Seq<char>>) -> Seq<char> {
    match masked {
        Some(m) => m,
        None => identity_field(raw.serial_number@),
    }
}

/// The block about a drive that `info` prints. `masked` is what stands in for
/// the serial number, if anything does.
pub fn drive_identity_lines(
    c: &Catalog,
    raw: &DriveId,
    device: &str,
    masked: Option<&str>,
) -> (r: Vec<String>)
    ensures
        texts(r@) == identity_block(c@, *raw, device@, shown_serial(*raw, opt_str(masked))),
{
    let id = DriveIdentity::from_drive(raw);
    let mut lines: Vec<String> = Vec::new();
    push_text(&mut lines, block_line_text(c.get("drive.device"), ":              ", device));
    push_text(
        &mut lines,
        block_line_text(c.get("drive.manufacturer"), ":        ", id.vendor.as_str()),
    );
    push_text(
        &mut lines,
        block_line_text(c.get("drive.product"), ":             ", id.product.as_str()),
    );
    push_text(
        &mut lines,
        block_line_text(c.get("drive.revision"), ":            ", id.revision.as_str()),
    );
    push_text(
        &mut lines,
        block_line_text(c.get("drive.serial"), ":       ", id.serial_display(masked).as_str()),
    );
    push_text(
        &mut lines,
        block_line_text(
            c.get("drive.firmware_date"),
            ":       ",
            format_date(id.firmware_date.as_str()).as_str(),
        ),
    );
    assert(texts(lines@) =~= identity_block(
        c@,
        *raw,
        device@,
        shown_serial(*raw, opt_str(masked)),
    ));
    lines
}

/// The first line of `drive.toml`: a comment that names the drive.
pub open spec fn header_comment(vendor: Seq<char>, product: Seq<char>, revision: Seq<char>) -> Seq<
    char,
> {
    "# "@ + vendor + " "@ + product + " "@ + revision + " — "@ + CAPTURE_COMMAND@ + "\n\n"@
}

/// The comment at the head of `drive.toml`, and the empty line behind it.
pub fn toml_header_comment(id: &DriveIdentity) -> (r: String)
    ensures
        r@ == header_comment(id.vendor@, id.product@, id.revision@),
{
    let mut s = "# ".to_owned();
    s.append(id.vendor.as_str());
    s.append(" ");
    s.append(id.product.as_str());
    s.append(" ");
    s.append(id.revision.as_str());
    s.append(" — ");
    s.append(CAPTURE_COMMAND);
    s.append("\n\n");
    s
}

/// Law: whatever the firmware says, the comment is one line, and the line
/// behind it is empty: nothing but the two line ends at its end is unsafe.
pub proof fn law_header_comment_is_one_line(
    vendor: Seq<char>,
    product: Seq<char>,
    revision: Seq<char>,
)
    requires
        is_safe(vendor),
        is_safe(product),
        is_safe(revision),
    ensures
        ({
            let s = header_comment(vendor, product, revision);
            is_safe(s.take(s.len() - 2)) && s.skip(s.len() - 2) == seq!['\n', '\n']
        }),
{
    reveal_strlit("# ");
    reveal_strlit(" ");
    reveal_strlit(" — ");
    reveal_strlit("freemkv info disc://");
    reveal_strlit("\n\n");
    let s0 = "# "@ + vendor;
    lemma_safe_concat("# "@, vendor);
    let s1 = s0 + " "@;
    lemma_safe_concat(s0, " "@);
    lemma_safe_concat(s1, product);
    lemma_safe_concat(s1 + product, " "@);
    lemma_safe_concat(s1 + product + " "@, revision);
    lemma_safe_concat(s1 + product + " "@ + revision, " — "@);
    let s2 = s1 + product + " "@ + revision + " — "@;
    lemma_safe_concat(s2, CAPTURE_COMMAND@);
    let s = header_comment(vendor, product, revision);
    assert(s =~= (s2 + CAPTURE_COMMAND@) + "\n\n"@);
    assert(s.take(s.len() - 2) =~= s2 + CAPTURE_COMMAND@);
    assert(s.skip(s.len() - 2) =~= seq!['\n', '\n']);
}

/// The flags of the drive listing.
#[derive(Clone, Copy, Debug, PartialEq, Eq, Structural)]
pub struct DriveFlags {
    pub share: bool,
    pub mask: bool,
    pub quiet: bool,
    pub verbose: bool,
}

/// What reading the flags came to.
pub enum DriveParse {
    Flags(DriveFlags),
    Help,
    Unknown(String),
}

/// What a [`DriveParse`] says.
pub enum DriveAnswer {
    Flags(DriveFlags),
    Help,
    Unknown(Seq<char>),
}

impl View for DriveParse {
    type V = DriveAnswer;

    open spec fn view(&self) -> DriveAnswer {
        match *self {
            DriveParse::Flags(f) => DriveAnswer::Flags(f),
            DriveParse::Help => DriveAnswer::Help,
            DriveParse::Unknown(s) => DriveAnswer::Unknown(s@),
        }
    }
}

/// What the arguments from position `i` on say, after the flags `f`. The flags of
/// the log belong elsewhere: they are stepped over, each with its value.
pub open spec fn drive_flags_from(args: Seq<Seq<char>>, i: int, f: DriveFlags) -> DriveAnswer
    decreases args.len() + 1 - i,
{
    if i < 0 || i >= args.len() {
        DriveAnswer::Flags(f)
    } else {
        let a = args[i];
        if a == "--share"@ || a == "-s"@ {
            drive_flags_from(args, i + 1, DriveFlags { share: true, ..f })
        } else if a == "--mask"@ || a == "-m"@ {
            drive_flags_from(args, i + 1, DriveFlags { mask: true, ..f })
        } else if a == "--quiet"@ || a == "-q"@ {
            drive_flags_from(args, i + 1, DriveFlags { quiet: true, ..f })
        } else if a == "--verbose"@ || a == "-v"@ || a == "-vv"@ || a == "-vvv"@ {
            drive_flags_from(args, i + 1, DriveFlags { verbose: true, ..f })
        } else if a == "--log-file"@ || a == "--log-level"@ {
            drive_flags_from(args, i + 2, f)
        } else if a == "--help"@ || a == "-h"@ {
            DriveAnswer::Help
        } else {
            DriveAnswer::Unknown(a)
        }
    }
}

/// Reads the flags of the drive listing.
pub fn parse_drive_flags(args: &[String]) -> (r: DriveParse)
    ensures
        r@ == drive_flags_from(
            texts(args@),
            0,
            (DriveFlags { share: false, mask: false, quiet: false, verbose: false }),
        ),
{
    let mut f = DriveFlags { share: false, mask: false, quiet: false, verbose: false };
    let ghost all = texts(args@);
    let ghost start = f;
    let mut i: usize = 0;
    while i < args.len()
        invariant
            all == texts(args@),
            all.len() == args@.len(),
            start == (DriveFlags { share: false, mask: false, quiet: false, verbose: false }),
            drive_flags_from(all, 0, start) == drive_flags_from(all, i as int, f),
        decreases args@.len() - i,
    {
        assert(all[i as int] == args@[i as int]@);
        let a = args[i].as_str();
        if same_text(a, "--share") || same_text(a, "-s") {
            f.share = true;
        } else if same_text(a, "--mask") || same_text(a, "-m") {
            f.mask = true;
        } else if same_text(a, "--quiet") || same_text(a, "-q") {
            f.quiet = true;
        } else if same_text(a, "--verbose") || same_text(a, "-v") || same_text(a, "-vv")
            || same_text(a, "-vvv") {
            f.verbose = true;
        } else if same_text(a, "--log-file") || same_text(a, "--log-level") {
            if i + 1 >= args.len() {
                assert(drive_flags_from(all, i + 2, f) == DriveAnswer::Flags(f));
                return DriveParse::Flags(f);
            }
            i = i + 1;
        } else if same_text(a, "--help") || same_text(a, "-h") {
            return DriveParse::Help;
        } else {
            return DriveParse::Unknown(args[i].clone());
        }
        i = i + 1;
    }
    DriveParse::Flags(f)
}

/// One feature that a drive told of.
#[derive(Clone, Debug)]
pub struct Feature {
    pub code: u16,
    pub name: String,
    pub data: Vec<u8>,
}

/// What was read out of a drive.
#[derive(Clone, Debug)]
pub struct Capture {
    pub inquiry: Vec<u8>,
    pub gc_010c: Vec<u8>,
    pub features: Vec<Feature>,
    pub rb_f1: Option<Vec<u8>>,
    pub rb_mode6: Option<Vec<u8>>,
    pub rb_b0_04: Option<Vec<u8>>,
    pub rb_b0_500000: Option<Vec<u8>>,
    pub rb_f4: Option<Vec<u8>>,
    pub wb_41: Option<Vec<u8>>,
    pub rb_b0_04_postknock: Option<Vec<u8>>,
    pub rb_b0_500000_postknock: Option<Vec<u8>>,
    pub rpc_state: Option<Vec<u8>>,
    pub mode_2a: Option<Vec<u8>>,
}

/// The part of a feature that holds the drive's serial number: from its fifth
/// byte on, in the one feature that has it.
pub open spec fn serial_part(code: u16, len: nat) -> Option<nat> {
    if code == 0x0108 && len > 4 {
        Some(4)
    } else {
        None
    }
}

/// From which byte on a feature holds the drive's serial number.
pub fn serial_start(code: u16, len: usize) -> (r: Option<usize>)
    ensures
        match r {
            Some(n) => serial_part(code, len as nat) == Some(n as nat) && n < len,
            None => serial_part(code, len as nat) is None,
        },
{
    if code == 0x0108 && len > 4 {
        Some(4)
    } else {
        None
    }
}

/// How many bytes at the start of the vendor buffer hold the drive's serial
/// number: twelve, where there are as many.
pub fn buffer_serial_len(len: usize) -> (r: Option<usize>)
    ensures
        r == (if len >= 12 {
            Some(12usize)
        } else {
            None
        }),
{
    if len >= 12 {
        Some(12)
    } else {
        None
    }
}

/// `data` with the bytes from `at` on replaced by `by`.
pub open spec fn spliced(data: Seq<u8>, at: int, by: Seq<u8>) -> Seq<u8> {
    data.take(at) + by + data.skip(at + by.len())
}

/// `data` with the bytes from `at` on replaced by `by`.
pub fn splice(data: &Vec<u8>, at: usize, by: &Vec<u8>) -> (r: Vec<u8>)
    requires
        at + by@.len() <= data@.len(),
    ensures
        r@ == spliced(data@, at as int, by@),
        r@.len() == data@.len(),
{
    let mut r: Vec<u8> = Vec::new();
    for i in 0..data.len()
        invariant
            at + by@.len() <= data@.len(),
            r@ == spliced(data@, at as int, by@).take(i as int),
    {
        if i >= at && i - at < by.len() {
            r.push(by[i - at]);
        } else {
            r.push(data[i]);
        }
        assert(r@ =~= spliced(data@, at as int, by@).take(i + 1));
    }
    assert(spliced(data@, at as int, by@).take(data@.len() as int) =~= spliced(
        data@,
        at as int,
        by@,
    ));
    r
}

/// The name of the file that a feature is saved in.
pub open spec fn feature_file(code: u16) -> Seq<char> {
    "gc_"@ + hex4(code as nat) + ".bin"@
}

/// The name of the file that a feature is saved in.
pub fn feature_file_name(code: u16) -> (r: String)
    ensures
        r@ == feature_file(code),
{
    let mut s = "gc_".to_owned();
    push_hex4(&mut s, code);
    s.append(".bin");
    s
}

/// A list with a file behind it, where there is one.
pub open spec fn with_file(
    files: Seq<(Seq<char>, Seq<u8>)>,
    name: Seq<char>,
    data: Option<Vec<u8>>,
) -> Seq<(Seq<char>, Seq<u8>)> {
    match data {
        Some(d) => files.push((name, d@)),
        None => files,
    }
}

/// The files of the first `n` features.
pub open spec fn feature_files(f: Seq<Feature>, n: nat) -> Seq<(Seq<char>, Seq<u8>)>
    decreases n,
{
    if n == 0 {
        Seq::empty()
    } else {
        feature_files(f, (n - 1) as nat).push((feature_file(f[n - 1].code), f[n - 1].data@))
    }
}

/// The files that a capture is saved in: names and contents, in order.
pub open spec fn saved_files(c: Capture) -> Seq<(Seq<char>, Seq<u8>)> {
    let s0 = seq![("inquiry.bin"@, c.inquiry@)] + feature_files(c.features@, c.features@.len());
    let s1 = with_file(s0, "rb_f1.bin"@, c.rb_f1);
    let s2 = with_file(s1, "rb_mode6.bin"@, c.rb_mode6);
    let s3 = with_file(s2, "rb_b0_04.bin"@, c.rb_b0_04);
    let s4 = with_file(s3, "rb_b0_500000.bin"@, c.rb_b0_500000);
    let s5 = with_file(s4, "rb_f4.bin"@, c.rb_f4);
    let s6 = with_file(s5, "wb_41.bin"@, c.wb_41);
    let s7 = with_file(s6, "rb_b0_04_postknock.bin"@, c.rb_b0_04_postknock);
    let s8 = with_file(s7, "rb_b0_500000_postknock.bin"@, c.rb_b0_500000_postknock);
    let s9 = with_file(s8, "rpc_state.bin"@, c.rpc_state);
    with_file(s9, "mode_2a.bin"@, c.mode_2a)
}

/// A file that is to be saved.
#[derive(Clone, Debug)]
pub struct SavedFile {
    pub name: String,
    pub data: Vec<u8>,
}

/// The names and contents of a list of files.
pub open spec fn contents(files: Seq<SavedFile>) -> Seq<(Seq<char>, Seq<u8>)> {
    files.map_values(|f: SavedFile| (f.name@, f.data@))
}

/// The same bytes again.
fn copy_bytes(data: &Vec<u8>) -> (r: Vec<u8>)
    ensures
        r@ == data@,
{
    vstd::slice::slice_to_vec(data.as_slice())
}

fn push_file(files: &mut Vec<SavedFile>, name: String, data: &Vec<u8>)
    ensures
        contents(final(files)@) == contents(old(files)@).push((name@, data@)),
{
    let data = copy_bytes(data);
    files.push(SavedFile { name, data });
    assert(contents(files@) =~= contents(old(files)@).push((name@, data@)));
}

fn push_optional(files: &mut Vec<SavedFile>, name: &str, data: &Option<Vec<u8>>)
    ensures
        contents(final(files)@) == with_file(contents(old(files)@), name@, *data),
{
    match data {
        Some(d) => {
            push_file(files, name.to_owned(), d);
        },
        None => {},
    }
}

/// The files that a capture is saved in.
pub fn capture_files(c: &Capture) -> (r: Vec<SavedFile>)
    ensures
        contents(r@) == saved_files(*c),
{
    let mut files: Vec<SavedFile> = Vec::new();
    push_file(&mut files, "inquiry.bin".to_owned(), &c.inquiry);
    let ghost head = seq![("inquiry.bin"@, c.inquiry@)];
    assert(contents(files@) =~= head + feature_files(c.features@, 0));
    for i in 0..c.features.len()
        invariant
            contents(files@) == head + feature_files(c.features@, i as nat),
    {
        push_file(&mut files, feature_file_name(c.features[i].code), &c.features[i].data);
        assert(contents(files@) =~= head + feature_files(c.features@, (i + 1) as nat));
    }
    push_optional(&mut files, "rb_f1.bin", &c.rb_f1);
    push_optional(&mut files, "rb_mode6.bin", &c.rb_mode6);
    push_optional(&mut files, "rb_b0_04.bin", &c.rb_b0_04);
    push_optional(&mut files, "rb_b0_500000.bin", &c.rb_b0_500000);
    push_optional(&mut files, "rb_f4.bin", &c.rb_f4);
    push_optional(&mut files, "wb_41.bin", &c.wb_41);
    push_optional(&mut files, "rb_b0_04_postknock.bin", &c.rb_b0_04_postknock);
    push_optional(&mut files, "rb_b0_500000_postknock.bin", &c.rb_b0_500000_postknock);
    push_optional(&mut files, "rpc_state.bin", &c.rpc_state);
    push_optional(&mut files, "mode_2a.bin", &c.mode_2a);
    files
}

/// The line about a feature in `drive.toml`.
pub open spec fn feature_line(f: Feature) -> Seq<char> {
    "0x"@ + hex4_upper(f.code as nat) + " = \""@ + feature_file(f.code) + "\"  # "@ + f.name@
}

/// The lines about the first `n` features, each ended.
pub open spec fn feature_lines(f: Seq<Feature>, n: nat) -> Seq<char>
    decreases n,
{
    if n == 0 {
        Seq::empty()
    } else {
        feature_lines(f, (n - 1) as nat) + feature_line(f[n - 1]) + "\n"@
    }
}

/// The message about one feature that was captured.
pub fn captured_line(c: &Catalog, f: &Feature) -> (r: String)
    ensures
        r@ == "  "@ + filled(
            text_of(c@, "drive.captured"@),
            seq![
                ("code"@, hex4_upper(f.code as nat)),
                ("name"@, f.name@),
                ("bytes"@, dec(f.data@.len())),
            ],
        ),
{
    let mut code = String::new();
    push_hex4_upper(&mut code, f.code);
    assert(code@ =~= hex4_upper(f.code as nat));
    let bytes = dec_text(f.data.len() as u64);
    let mut args: Vec<(&str, &str)> = Vec::new();
    args.push(("code", code.as_str()));
    args.push(("name", f.name.as_str()));
    args.push(("bytes", bytes.as_str()));
    assert(arg_texts(args@) =~= seq![("code"@, code@), ("name"@, f.name@), ("bytes"@, bytes@)]);
    let mut s = "  ".to_owned();
    s.append(c.fmt("drive.captured", args.as_slice()).as_str());
    s
}

/// One line of `drive.toml` with a text for its value.
pub open spec fn toml_line(key: Seq<char>, value: Seq<char>) -> Seq<char> {
    key + " = \""@ + toml_escaped(value) + "\"\n"@
}

fn push_toml_line(out: &mut String, key: &str, value: &str)
    ensures
        final(out)@ == old(out)@ + toml_line(key@, value@),
{
    let ghost before = out@;
    out.append(key);
    out.append(" = \"");
    out.append(toml_escape(value).as_str());
    out.append("\"\n");
    assert(out@ =~= before + toml_line(key@, value@));
}

/// `s`, with `line` behind it where there is something to name.
pub open spec fn line_if(s: Seq<char>, data: Option<Vec<u8>>, line: Seq<char>) -> Seq<char> {
    if data is Some {
        s + line
    } else {
        s
    }
}

fn push_line_if(out: &mut String, data: &Option<Vec<u8>>, line: &str)
    ensures
        final(out)@ == line_if(old(out)@, *data, line@),
{
    if data.is_some() {
        out.append(line);
    }
}

/// Some vendor buffer was read.
pub open spec fn has_buffers(c: Capture) -> bool {
    c.rb_f1 is Some || c.rb_mode6 is Some || c.rb_b0_04 is Some || c.rb_b0_500000 is Some || c.wb_41
        is Some || c.rb_b0_04_postknock is Some || c.rb_b0_500000_postknock is Some || c.rb_f4 is Some
}

/// The section of `drive.toml` about the vendor buffers.
pub open spec fn buffer_section(s: Seq<char>, c: Capture) -> Seq<char> {
    if !has_buffers(c) {
        s
    } else {
        let s0 = s + "\n[read_buffer]\n"@;
        let s1 = line_if(s0, c.rb_f1, "0xF1 = \"rb_f1.bin\"\n"@);
        let s2 = line_if(s1, c.rb_mode6, "mode6 = \"rb_mode6.bin\"\n"@);
        let s3 = line_if(s2, c.rb_b0_04, "0xB0_04 = \"rb_b0_04.bin\"\n"@);
        let s4 = line_if(s3, c.rb_b0_500000, "0xB0_500000 = \"rb_b0_500000.bin\"\n"@);
        let s5 = line_if(s4, c.wb_41, "0x41 = \"wb_41.bin\"\n"@);
        let s6 = line_if(
            s5,
            c.rb_b0_04_postknock,
            "0xB0_04_postknock = \"rb_b0_04_postknock.bin\"\n"@,
        );
        let s7 = line_if(
            s6,
            c.rb_b0_500000_postknock,
            "0xB0_500000_postknock = \"rb_b0_500000_postknock.bin\"\n"@,
        );
        line_if(s7, c.rb_f4, "0xF4 = \"rb_f4.bin\"\n"@)
    }
}

/// The contents of `drive.toml`.
pub open spec fn drive_toml_text(
    id: DriveIdentity,
    serial: Seq<char>,
    platform: Seq<char>,
    matched: bool,
    c: Capture,
) -> Seq<char> {
    buffer_section(
        header_comment(id.vendor@, id.product@, id.revision@) + "[drive]\n"@ + toml_line(
            "manufacturer"@,
            id.vendor@,
        ) + toml_line("product"@, id.product@) + toml_line("revision"@, id.revision@) + toml_line(
            "serial"@,
            serial,
        ) + toml_line("firmware_date"@, date_text(id.firmware_date@)) + toml_line(
            "platform"@,
            platform,
        ) + "profile_matched = "@ + bool_text(matched) + "\n\n"@ + "[files]\n"@
            + "inquiry = \"inquiry.bin\"\n"@ + "mode_2a = \"mode_2a.bin\"\n\n"@ + "[features]\n"@
            + feature_lines(c.features@, c.features@.len()),
        c,
    )
}

/// A truth value as a word.
pub open spec fn bool_text(b: bool) -> Seq<char> {
    if b {
        "true"@
    } else {
        "false"@
    }
}

/// A truth value as a word.
pub fn bool_word(b: bool) -> (r: &'static str)
    ensures
        r@ == bool_text(b),
{
    if b {
        "true"
    } else {
        "false"
    }
}

fn push_feature_lines(out: &mut String, f: &Vec<Feature>)
    ensures
        final(out)@ == old(out)@ + feature_lines(f@, f@.len()),
{
    let ghost start = out@;
    assert(start + feature_lines(f@, 0) =~= start);
    for i in 0..f.len()
        invariant
            out@ == start + feature_lines(f@, i as nat),
    {
        let ghost before = out@;
        out.append("0x");
        push_hex4_upper(out, f[i].code);
        out.append(" = \"");
        out.append(feature_file_name(f[i].code).as_str());
        out.append("\"  # ");
        out.append(f[i].name.as_str());
        assert(out@ =~= before + feature_line(f@[i as int]));
        out.append("\n");
        assert(out@ =~= start + feature_lines(f@, (i + 1) as nat));
    }
}

/// The contents of `drive.toml`: the drive, the files, the features and the
/// vendor buffers of a capture. Every text of the firmware is escaped.
pub fn drive_toml(
    id: &DriveIdentity,
    serial: &str,
    platform: &str,
    matched: bool,
    c: &Capture,
) -> (r: String)
    ensures
        r@ == drive_toml_text(*id, serial@, platform@, matched, *c),
{
    let mut toml = toml_header_comment(id);
    toml.append("[drive]\n");
    push_toml_line(&mut toml, "manufacturer", id.vendor.as_str());
    push_toml_line(&mut toml, "product", id.product.as_str());
    push_toml_line(&mut toml, "revision", id.revision.as_str());
    push_toml_line(&mut toml, "serial", serial);
    push_toml_line(&mut toml, "firmware_date", format_date(id.firmware_date.as_str()).as_str());
    push_toml_line(&mut toml, "platform", platform);
    toml.append("profile_matched = ");
    toml.append(bool_word(matched));
    toml.append("\n\n");
    toml.append("[files]\n");
    toml.append("inquiry = \"inquiry.bin\"\n");
    toml.append("mode_2a = \"mode_2a.bin\"\n\n");
    toml.append("[features]\n");
    push_feature_lines(&mut toml, &c.features);
    if c.rb_f1.is_some() || c.rb_mode6.is_some() || c.rb_b0_04.is_some()
        || c.rb_b0_500000.is_some() || c.wb_41.is_some() || c.rb_b0_04_postknock.is_some()
        || c.rb_b0_500000_postknock.is_some() || c.rb_f4.is_some() {
        toml.append("\n[read_buffer]\n");
        push_line_if(&mut toml, &c.rb_f1, "0xF1 = \"rb_f1.bin\"\n");
        push_line_if(&mut toml, &c.rb_mode6, "mode6 = \"rb_mode6.bin\"\n");
        push_line_if(&mut toml, &c.rb_b0_04, "0xB0_04 = \"rb_b0_04.bin\"\n");
        push_line_if(&mut toml, &c.rb_b0_500000, "0xB0_500000 = \"rb_b0_500000.bin\"\n");
        push_line_if(&mut toml, &c.wb_41, "0x41 = \"wb_41.bin\"\n");
        push_line_if(
            &mut toml,
            &c.rb_b0_04_postknock,
            "0xB0_04_postknock = \"rb_b0_04_postknock.bin\"\n",
        );
        push_line_if(
            &mut toml,
            &c.rb_b0_500000_postknock,
            "0xB0_500000_postknock = \"rb_b0_500000_postknock.bin\"\n",
        );
        push_line_if(&mut toml, &c.rb_f4, "0xF4 = \"rb_f4.bin\"\n");
    }
    toml
}

/// The name of the directory that a profile is saved in.
pub open spec fn profile_dir(id: DriveIdentity) -> Seq<char> {
    component_of(
        text_in_lower_case(id.vendor@) + "-"@ + text_in_lower_case(id.product@) + "-"@
            + text_in_lower_case(id.revision@) + "-"@ + text_in_lower_case(id.vendor_specific@),
    )
}

/// The name of the directory that a profile is saved in, made of what the
/// drive calls itself, given that in lower case.
pub fn profile_name_of(vendor: &str, product: &str, revision: &str, specific: &str) -> (r: String)
    ensures
        r@ == component_of(vendor@ + "-"@ + product@ + "-"@ + revision@ + "-"@ + specific@),
{
    let mut s = vendor.to_owned();
    s.append("-");
    s.append(product);
    s.append("-");
    s.append(revision);
    s.append("-");
    s.append(specific);
    sanitize_component(s.as_str())
}

/// The name of the directory that a profile is saved in.
pub fn profile_name(id: &DriveIdentity) -> (r: String)
    ensures
        r@ == profile_dir(*id),
{
    profile_name_of(
        lower_case(id.vendor.as_str()).as_str(),
        lower_case(id.product.as_str()).as_str(),
        lower_case(id.revision.as_str()).as_str(),
        lower_case(id.vendor_specific.as_str()).as_str(),
    )
}

/// The length that an inquiry announces: its fifth byte.
pub open spec fn announced_length(inquiry: Seq<u8>) -> nat {
    if inquiry.len() > 4 {
        inquiry[4] as nat
    } else {
        0
    }
}

/// The raw data of a drive, for a person to read.
pub open spec fn raw_identity(c: Capture) -> Seq<char> {
    "### Raw identity\n\n"@ + "```\n"@ + "INQUIRY[4] (additional length): 0x"@ + hex2_upper(
        announced_length(c.inquiry@),
    ) + "\n"@ + "INQUIRY ("@ + dec(c.inquiry@.len()) + " bytes):\n  "@ + joined(
        dump_rows(c.inquiry@),
        "\n  "@,
    ) + "\n"@ + (if c.gc_010c@.len() > 0 {
        "GET_CONFIG 010C ("@ + dec(c.gc_010c@.len()) + " bytes):\n  "@ + joined(
            dump_rows(c.gc_010c@),
            "\n  "@,
        ) + "\n"@
    } else {
        "GET_CONFIG 010C: not available\n"@
    }) + "```\n\n"@
}

fn raw_identity_text(c: &Capture) -> (r: String)
    ensures
        r@ == raw_identity(*c),
{
    let mut body = "### Raw identity\n\n".to_owned();
    body.append("```\n");
    body.append("INQUIRY[4] (additional length): 0x");
    push_hex2_upper(
        &mut body,
        if c.inquiry.len() > 4 {
            c.inquiry[4]
        } else {
            0
        },
    );
    body.append("\n");
    body.append("INQUIRY (");
    push_dec(&mut body, c.inquiry.len() as u64);
    body.append(" bytes):\n  ");
    body.append(hex_dump(c.inquiry.as_slice()).as_str());
    body.append("\n");
    let mut config = String::new();
    if c.gc_010c.len() > 0 {
        config.append("GET_CONFIG 010C (");
        push_dec(&mut config, c.gc_010c.len() as u64);
        config.append(" bytes):\n  ");
        config.append(hex_dump(c.gc_010c.as_slice()).as_str());
        config.append("\n");
        assert(config@ =~= "GET_CONFIG 010C ("@ + dec(c.gc_010c@.len()) + " bytes):\n  "@ + joined(
            dump_rows(c.gc_010c@),
            "\n  "@,
        ) + "\n"@);
    } else {
        config.append("GET_CONFIG 010C: not available\n");
        assert(config@ =~= "GET_CONFIG 010C: not available\n"@);
    }
    body.append(config.as_str());
    body.append("```\n\n");
    body
}

/// An archive in base64, folded away.
pub open spec fn folded_archive(summary: Seq<char>, zip_b64: Seq<char>) -> Seq<char> {
    "<details><summary>"@ + summary + "</summary>\n\n```\n"@ + wrapped(zip_b64, 76)
        + "```\n\n</details>\n\n"@
}

/// An archive in base64, folded away.
pub fn folded_archive_text(summary: &str, zip_b64: &str) -> (r: String)
    ensures
        r@ == folded_archive(summary@, zip_b64@),
{
    let mut s = "<details><summary>".to_owned();
    s.append(summary);
    s.append("</summary>\n\n```\n");
    push_wrapped(&mut s, zip_b64, 76);
    s.append("```\n\n</details>\n\n");
    s
}

/// The report about a drive.
pub open spec fn drive_report(
    id: DriveIdentity,
    serial: Seq<char>,
    platform: Seq<char>,
    profile: Seq<char>,
    c: Capture,
    zip_b64: Seq<char>,
) -> Seq<char> {
    "## Drive Profile\n\n"@ + "```\n"@ + "Manufacturer:    "@ + id.vendor@ + "\n"@
        + "Product:         "@ + id.product@ + "\n"@ + "Revision:        "@ + id.revision@ + "\n"@
        + "Serial:          "@ + serial + "\n"@ + "Firmware date:   "@ + date_text(
        id.firmware_date@,
    ) + "\n"@ + "Platform:        "@ + platform + "\n"@ + "Firmware:        "@ + (id.revision@ + "/"@
        + id.vendor_specific@) + "\n"@ + "Profile:         "@ + profile + "\n"@ + "```\n\n"@
        + "Features captured: "@ + dec(c.features@.len()) + "\n\n"@ + raw_identity(c)
        + folded_archive("Profile data (base64 zip)"@, zip_b64) + "---\n*Captured by `"@
        + CAPTURE_COMMAND@ + " --share`*\n"@
}

/// The report about a drive: what is known of it, its raw data and the archive.
pub fn drive_issue_body(
    id: &DriveIdentity,
    serial: &str,
    platform: &str,
    profile: &str,
    c: &Capture,
    zip_b64: &str,
) -> (r: String)
    ensures
        r@ == drive_report(*id, serial@, platform@, profile@, *c, zip_b64@),
{
    let mut body = "## Drive Profile\n\n".to_owned();
    body.append("```\n");
    body.append("Manufacturer:    ");
    body.append(id.vendor.as_str());
    body.append("\n");
    body.append("Product:         ");
    body.append(id.product.as_str());
    body.append("\n");
    body.append("Revision:        ");
    body.append(id.revision.as_str());
    body.append("\n");
    body.append("Serial:          ");
    body.append(serial);
    body.append("\n");
    body.append("Firmware date:   ");
    body.append(format_date(id.firmware_date.as_str()).as_str());
    body.append("\n");
    body.append("Platform:        ");
    body.append(platform);
    body.append("\n");
    body.append("Firmware:        ");
    body.append(id.firmware_version().as_str());
    body.append("\n");
    body.append("Profile:         ");
    body.append(profile);
    body.append("\n");
    body.append("```\n\n");
    body.append("Features captured: ");
    push_dec(&mut body, c.features.len() as u64);
    body.append("\n\n");
    body.append(raw_identity_text(c).as_str());
    body.append(folded_archive_text("Profile data (base64 zip)", zip_b64).as_str());
    body.append("---\n*Captured by `");
    body.append(CAPTURE_COMMAND);
    body.append(" --share`*\n");
    body
}

/// The title of the report about a drive.
pub fn drive_issue_title(id: &DriveIdentity) -> (r: String)
    ensures
        r@ == "Drive profile: "@ + id.vendor@ + " "@ + id.product@,
{
    let mut s = "Drive profile: ".to_owned();
    s.append(id.vendor.as_str());
    s.append(" ");
    s.append(id.product.as_str());
    s
}

/// What is printed of the drive before anything is shared: the program, the
/// drive block, the platform block and, unless it was asked for, how to share.
pub open spec fn drive_listing(
    c: Seq<(Seq<char>, Seq<char>)>,
    version: Seq<char>,
    block: Seq<Seq<char>>,
    platform: Seq<char>,
    firmware: Seq<char>,
    profile: Seq<char>,
    share: bool,
) -> Seq<Seq<char>> {
    let head = seq![
        "freemkv "@ + version,
        Seq::<char>::empty(),
        text_of(c, "drive.header"@),
    ] + block + seq![
        Seq::<char>::empty(),
        text_of(c, "drive.platform_header"@),
        block_line(text_of(c, "drive.platform"@), ":      "@, platform),
        block_line(text_of(c, "drive.firmware_version"@), ":    "@, firmware),
        block_line(text_of(c, "drive.profile"@), ":             "@, profile),
        Seq::<char>::empty(),
    ];
    plus_if(head, !share, text_of(c, "drive.share_hint"@))
}

/// What the catalogue calls a drive with or without a profile of its own.
pub fn profile_status(c: &Catalog, matched: bool) -> (r: String)
    ensures
        r@ == text_of(
            c@,
            if matched {
                "drive.supported"@
            } else {
                "drive.unknown"@
            },
        ),
{
    c.get(
        if matched {
            "drive.supported"
        } else {
            "drive.unknown"
        },
    )
}

/// What is printed of the drive before anything is shared.
pub fn drive_listing_lines(
    c: &Catalog,
    version: &str,
    block: Vec<String>,
    platform: &str,
    firmware: &str,
    profile: &str,
    share: bool,
) -> (r: Vec<String>)
    ensures
        texts(r@) == drive_listing(
            c@,
            version@,
            texts(block@),
            platform@,
            firmware@,
            profile@,
            share,
        ),
{
    let mut lines: Vec<String> = Vec::new();
    let mut name = "freemkv ".to_owned();
    name.append(version);
    push_text(&mut lines, name);
    push_text(&mut lines, String::new());
    push_text(&mut lines, c.get("drive.header"));
    assert(texts(lines@) =~= seq![
        "freemkv "@ + version@,
        Seq::<char>::empty(),
        text_of(c@, "drive.header"@),
    ]);
    push_texts(&mut lines, block);
    let ghost head = texts(lines@);
    push_text(&mut lines, String::new());
    push_text(&mut lines, c.get("drive.platform_header"));
    push_text(&mut lines, block_line_text(c.get("drive.platform"), ":      ", platform));
    push_text(&mut lines, block_line_text(c.get("drive.firmware_version"), ":    ", firmware));
    push_text(&mut lines, block_line_text(c.get("drive.profile"), ":             ", profile));
    push_text(&mut lines, String::new());
    assert(texts(lines@) =~= head + seq![
        Seq::<char>::empty(),
        text_of(c@, "drive.platform_header"@),
        block_line(text_of(c@, "drive.platform"@), ":      "@, platform@),
        block_line(text_of(c@, "drive.firmware_version"@), ":    "@, firmware@),
        block_line(text_of(c@, "drive.profile"@), ":             "@, profile@),
        Seq::<char>::empty(),
    ]);
    if !share {
        push_text(&mut lines, c.get("drive.share_hint"));
    }
    lines
}

/// What is printed of a captured profile.
pub open spec fn profile_summary(
    c: Seq<(Seq<char>, Seq<char>)>,
    id: DriveIdentity,
    serial: Seq<char>,
    platform: Seq<char>,
    profile: Seq<char>,
    features: nat,
) -> Seq<Seq<char>> {
    seq![
        Seq::<char>::empty(),
        text_of(c, "drive.submit_header"@) + ":"@,
        block_line(
            text_of(c, "drive.submit_drive"@),
            ":    "@,
            id.vendor@ + " "@ + id.product@ + " "@ + id.revision@,
        ),
        block_line(text_of(c, "drive.submit_serial"@), ":   "@, serial),
        block_line(text_of(c, "drive.submit_platform"@), ": "@, platform),
        block_line(
            text_of(c, "drive.submit_firmware"@),
            ": "@,
            id.revision@ + "/"@ + id.vendor_specific@,
        ),
        block_line(text_of(c, "drive.submit_profile"@), ":  "@, profile),
        block_line(text_of(c, "drive.submit_features"@), ": "@, dec(features) + " captured"@),
        Seq::<char>::empty(),
    ]
}

/// What is printed of a captured profile.
pub fn profile_summary_lines(
    c: &Catalog,
    id: &DriveIdentity,
    serial: &str,
    platform: &str,
    profile: &str,
    features: usize,
) -> (r: Vec<String>)
    ensures
        texts(r@) == profile_summary(c@, *id, serial@, platform@, profile@, features as nat),
{
    let mut lines: Vec<String> = Vec::new();
    push_text(&mut lines, String::new());
    let mut head = c.get("drive.submit_header");
    head.append(":");
    push_text(&mut lines, head);
    let mut drive = id.vendor.clone();
    drive.append(" ");
    drive.append(id.product.as_str());
    drive.append(" ");
    drive.append(id.revision.as_str());
    push_text(
        &mut lines,
        block_line_text(c.get("drive.submit_drive"), ":    ", drive.as_str()),
    );
    push_text(&mut lines, block_line_text(c.get("drive.submit_serial"), ":   ", serial));
    push_text(&mut lines, block_line_text(c.get("drive.submit_platform"), ": ", platform));
    push_text(
        &mut lines,
        block_line_text(c.get("drive.submit_firmware"), ": ", id.firmware_version().as_str()),
    );
    push_text(&mut lines, block_line_text(c.get("drive.submit_profile"), ":  ", profile));
    let mut count = dec_text(features as u64);
    count.append(" captured");
    push_text(
        &mut lines,
        block_line_text(c.get("drive.submit_features"), ": ", count.as_str()),
    );
    push_text(&mut lines, String::new());
    assert(texts(lines@) =~= profile_summary(
        c@,
        *id,
        serial@,
        platform@,
        profile@,
        features as nat,
    ));
    lines
}

/// The help on the drive listing.
pub fn drive_help_lines(c: &Catalog) -> (r: Vec<String>)
    ensures
        texts(r@) == seq![
            text_of(c@, "drive.share_usage"@),
            Seq::<char>::empty(),
            "  --share    "@ + text_of(c@, "drive.share_desc"@),
            "  --mask     "@ + text_of(c@, "drive.mask_desc"@),
            "  --quiet    "@ + text_of(c@, "app.opt_quiet"@),
            "  --verbose  "@ + text_of(c@, "app.opt_verbose"@),
        ],
{
    let mut lines: Vec<String> = Vec::new();
    push_text(&mut lines, c.get("drive.share_usage"));
    push_text(&mut lines, String::new());
    let mut share = "  --share    ".to_owned();
    share.append(c.get("drive.share_desc").as_str());
    push_text(&mut lines, share);
    let mut mask = "  --mask     ".to_owned();
    mask.append(c.get("drive.mask_desc").as_str());
    push_text(&mut lines, mask);
    let mut quiet = "  --quiet    ".to_owned();
    quiet.append(c.get("app.opt_quiet").as_str());
    push_text(&mut lines, quiet);
    let mut verbose = "  --verbose  ".to_owned();
    verbose.append(c.get("app.opt_verbose").as_str());
    push_text(&mut lines, verbose);
    assert(texts(lines@) =~= seq![
        text_of(c@, "drive.share_usage"@),
        Seq::<char>::empty(),
        share@,
        mask@,
        quiet@,
        verbose@,
    ]);
    lines
}

} // verus!

//! What holds of every menu, setting and line of the desktop window.

use crate::engine::request::is_blank;
use crate::fetch_laws::lemma_until;
use crate::linux::main_view::{LogKind, LogLine, label_position, tag_of_kind, written_lines};
use crate::linux::prefs::{
    FieldValue, KeydbText, SettingKey, ValueText, field_text, keydb_update, keyserver_text,
    read_back, setting_name,
};
use crate::linux::tree::{Bound, Check, repainted};
use crate::linux::{
    Accel, MenuEntry, MenuGroup, accel_text, app_section, locale_tag, other_sections, row_for,
    rows_for, system_locale,
};
use crate::reading::{ends_with, lacks, law_placeholder_gets_its_value, lemma_has_part};
use crate::strings::{placeholder, text_of};
use crate::text::{CharClass, has_text};
use vstd::prelude::*;
use vstd::string::*;

verus! {

/// Law: a key is written with each of its modifiers, and no other, before it.
pub proof fn law_key_is_written_with_its_modifiers(a: Accel)
    ensures
        ends_with(accel_text(a), a.key@),
        accel_text(a).len() == (if a.primary {
            "<Primary>"@.len()
        } else {
            0
        }) + (if a.alt {
            "<Alt>"@.len()
        } else {
            0
        }) + (if a.shift {
            "<Shift>"@.len()
        } else {
            0
        }) + a.key@.len(),
        a.primary ==> has_text(accel_text(a), "<Primary>"@),
        a.alt ==> has_text(accel_text(a), "<Alt>"@),
        a.shift ==> has_text(accel_text(a), "<Shift>"@),
{
    let e = Seq::<char>::empty();
    let p = if a.primary {
        "<Primary>"@
    } else {
        e
    };
    let l = if a.alt {
        "<Alt>"@
    } else {
        e
    };
    let s = if a.shift {
        "<Shift>"@
    } else {
        e
    };
    let k = a.key@;
    lemma_has_part(e, p, l + s + k);
    assert(e + p + (l + s + k) =~= accel_text(a));
    lemma_has_part(p, l, s + k);
    assert(p + l + (s + k) =~= accel_text(a));
    lemma_has_part(p + l, s, k);
    crate::reading::lemma_starts(p + l + s, k);
}

/// Law: a row of the menu has the label and the key of its entry; lines, and what a
/// text field does by itself, have no row.
pub proof fn law_menu_row_is_its_entry(e: MenuEntry)
    ensures
        e is Separator ==> row_for(e) is None,
        e matches MenuEntry::Item(mi) ==> {
            &&& row_for(e) matches Some(r) ==> {
                &&& r.label == mi.label@
                &&& mi.accel matches Some(a) ==> r.accel == Some(accel_text(a))
                &&& mi.accel is None ==> r.accel is None
            }
            &&& mi.action is StandardCut || mi.action is StandardCopy || mi.action is StandardPaste
                || mi.action is StandardSelectAllText ==> row_for(e) is None
        },
{
}

/// Law: the parts of the menu stand in their order under their titles; the
/// application's own stands apart, without a title, and last.
pub proof fn law_menu_keeps_its_order(layout: Seq<MenuGroup>, n: nat, i: int)
    requires
        n <= layout.len(),
        forall|j: int| 0 <= j < n ==> !(#[trigger] layout[j]).app,
    ensures
        other_sections(layout, n).len() == n,
        0 <= i < n ==> {
            let s = other_sections(layout, n)[i];
            s.title == Some(layout[i].title@) && s.rows == rows_for(
                layout[i].entries@,
                layout[i].entries@.len(),
            )
        },
        n < layout.len() && layout[n as int].app ==> {
            let s = app_section(layout, 0);
            s.len() == 1 && s[0].title is None && s[0].rows == rows_for(
                layout[n as int].entries@,
                layout[n as int].entries@.len(),
            ) && other_sections(layout, n + 1) == other_sections(layout, n)
        },
        n == layout.len() ==> app_section(layout, 0).len() == 0,
    decreases n,
{
    if n > 0 {
        law_menu_keeps_its_order(layout, (n - 1) as nat, i);
    }
    lemma_app_section(layout, 0, n);
}

proof fn lemma_app_section(layout: Seq<MenuGroup>, i: int, n: nat)
    requires
        0 <= i <= n <= layout.len(),
        forall|j: int| 0 <= j < n ==> !(#[trigger] layout[j]).app,
    ensures
        app_section(layout, i) == app_section(layout, n as int),
    decreases n - i,
{
    if i < n {
        lemma_app_section(layout, i + 1, n);
    }
}

/// Law: the language that the environment names is its name up to the encoding or
/// the modifier, with hyphens for underscores; `LC_ALL` goes before `LANG`; and the
/// names of no language name none.
pub proof fn law_locale_is_read(
    tag: Seq<char>,
    rest: Seq<char>,
    lang: Option<Seq<char>>,
    i: int,
)
    requires
        tag.len() > 0,
        lacks(tag, '.') && lacks(tag, '@'),
        rest.len() == 0 || rest[0] == '.' || rest[0] == '@',
        tag + rest != "C"@ && tag + rest != "POSIX"@,
    ensures
        locale_tag(Some(tag + rest)) matches Some(t) && t.len() == tag.len() && (0 <= i < tag.len()
            ==> t[i] == (if tag[i] == '_' {
            '-'
        } else {
            tag[i]
        })),
        system_locale(Some(tag + rest), lang) == locale_tag(Some(tag + rest)),
        system_locale(None, lang) == locale_tag(lang),
        system_locale(Some("C"@), lang) == locale_tag(lang),
        system_locale(Some("POSIX"@), lang) == locale_tag(lang),
        locale_tag(None) is None,
{
    lemma_until(tag, rest, CharClass::LocaleDelimiter);
}

/// The name that each setting is saved under.
pub open spec fn setting_names() -> Seq<(SettingKey, Seq<char>)> {
    seq![
        (SettingKey::Container, "container"@),
        (SettingKey::DestDir, "dest_dir"@),
        (SettingKey::FilenameTemplate, "filename_template"@),
        (SettingKey::KeepIso, "keep_iso"@),
        (SettingKey::AutoEject, "auto_eject"@),
        (SettingKey::Selection, "selection"@),
        (SettingKey::MinTitleSecs, "min_title_secs"@),
        (SettingKey::AudioLangs, "audio_langs"@),
        (SettingKey::SubLangs, "sub_langs"@),
        (SettingKey::ForcedSubLangs, "forced_sub_langs"@),
        (SettingKey::RipMode, "rip_mode"@),
        (SettingKey::MaxPasses, "max_passes"@),
        (SettingKey::AbortLostSecs, "abort_lost_secs"@),
        (SettingKey::Raw, "raw"@),
        (SettingKey::Force, "force"@),
        (SettingKey::KeySource, "key_source"@),
        (SettingKey::KeydbPath, "keydb_path"@),
        (SettingKey::KeydbUrl, "keydb_url"@),
        (SettingKey::KeyserverUrl, "keyserver_url"@),
        (SettingKey::KeyserverToken, "keyserver_token"@),
        (SettingKey::Language, "language"@),
        (SettingKey::DecryptThreads, "decrypt_threads"@),
        (SettingKey::LogLevel, "log_level"@),
    ]
}

/// Law: every setting is saved under its own name.
pub proof fn law_setting_has_its_own_name(i: int)
    requires
        0 <= i < setting_names().len(),
    ensures
        setting_name(setting_names()[i].0) == setting_names()[i].1,
{
}

/// Law: what is read back from a row is what stands in it: its text, its switch, or
/// the word of the option that is selected.
pub proof fn law_row_is_read_back(f: FieldValue)
    ensures
        f matches FieldValue::Text(s) ==> read_back(f) == Some(ValueText::Text(s@)),
        f matches FieldValue::On(b) ==> read_back(f) == Some(ValueText::On(b)),
        f matches FieldValue::Choice { options, selected } ==> (if selected < options@.len() {
            read_back(f) == Some(ValueText::Text(options@[selected as int]@))
        } else {
            read_back(f) is None
        }),
{
}

/// Law: the text of a field is that of the first field with its key, and nothing
/// where there is none.
pub proof fn law_field_is_found(fields: Seq<(SettingKey, String)>, key: SettingKey, i: int, k: int)
    requires
        0 <= i,
    ensures
        i <= k < fields.len() && fields[k].0 == key && (forall|j: int|
            i <= j < k ==> (#[trigger] fields[j]).0 != key) ==> field_text(fields, key, i)
            == fields[k].1@,
        (forall|j: int| i <= j < fields.len() ==> (#[trigger] fields[j]).0 != key) ==> field_text(
            fields,
            key,
            i,
        ).len() == 0,
    decreases fields.len() - i,
{
    if i < fields.len() {
        law_field_is_found(fields, key, i + 1, k);
    }
}

/// Law: what is typed goes before what was saved when the key database is fetched,
/// for the address and the path each; without an address nothing is fetched, and
/// while one update runs no other does.
pub proof fn law_typed_goes_before_saved(
    c: Seq<(Seq<char>, Seq<char>)>,
    typed_url: Seq<char>,
    typed_path: Seq<char>,
    saved_url: Seq<char>,
    saved_path: Seq<char>,
)
    ensures
        keydb_update(c, true, typed_url, typed_path, saved_url, saved_path) is Say,
        typed_url.len() > 0 && !is_blank(typed_url) ==> (keydb_update(
            c,
            false,
            typed_url,
            typed_path,
            saved_url,
            saved_path,
        ) matches KeydbText::Fetch { url, path, .. } && url == typed_url && (typed_path.len() > 0
            ==> path == typed_path) && (typed_path.len() == 0 ==> path == saved_path)),
        typed_url.len() == 0 && !is_blank(saved_url) ==> (keydb_update(
            c,
            false,
            typed_url,
            typed_path,
            saved_url,
            saved_path,
        ) matches KeydbText::Fetch { url, .. } && url == saved_url),
        typed_url.len() == 0 && is_blank(saved_url) ==> keydb_update(
            c,
            false,
            typed_url,
            typed_path,
            saved_url,
            saved_path,
        ) is Say,
{
}

/// Law: a key server that is accepted is named by its address, and one that is not
/// with the reason, each where the catalogue has the place for it.
pub proof fn law_keyserver_is_told(
    c: Seq<(Seq<char>, Seq<char>)>,
    url: Seq<char>,
    verdict: Result<(), String>,
    pre: Seq<char>,
    post: Seq<char>,
)
    requires
        lacks(pre, '{') && lacks(post, '{') && lacks(url, '{'),
        verdict matches Err(e) ==> lacks(e@, '{'),
    ensures
        is_blank(url) ==> keyserver_text(c, url, verdict) == text_of(c, "gui.log.no_keyserver"@),
        !is_blank(url) && verdict is Ok && text_of(c, "gui.log.keyserver_valid"@) == pre
            + placeholder("url"@) + post ==> keyserver_text(c, url, verdict) == pre + url + post,
        !is_blank(url) && text_of(c, "gui.log.keyserver_rejected"@) == pre + placeholder("e"@) + post
            ==> (verdict matches Err(e) ==> keyserver_text(c, url, verdict) == pre + e@ + post),
{
    reveal_strlit("url");
    reveal_strlit("e");
    assert("url"@ =~= seq!['u', 'r', 'l'] && "e"@ =~= seq!['e']);
    law_placeholder_gets_its_value(pre, post, seq![("url"@, url)], 0);
    if let Err(e) = verdict {
        law_placeholder_gets_its_value(pre, post, seq![("e"@, e@)], 0);
    }
}

/// Law: the label that is selected is the first that is wanted.
pub proof fn law_label_is_found(labels: Seq<Seq<char>>, want: Seq<char>, i: int, k: int)
    requires
        0 <= i,
        i <= k < labels.len(),
        labels[k] == want,
        forall|j: int| i <= j < k ==> #[trigger] labels[j] != want,
    ensures
        label_position(labels, want, i) == k,
    decreases labels.len() - i,
{
    if i < k {
        law_label_is_found(labels, want, i + 1, k);
    }
}

/// Law: each line of the log is written as it is, on a line of its own, in the style
/// of its kind; and the kinds differ in style.
pub proof fn law_log_lines_are_written(log: Seq<LogLine>, from: int, i: int, a: LogKind, b: LogKind)
    requires
        0 <= from <= log.len(),
        0 <= i < log.len() - from,
    ensures
        written_lines(log, from).len() == log.len() - from,
        written_lines(log, from)[i].0 == log[from + i].text@ + "\n"@,
        written_lines(log, from)[i].1 == tag_of_kind(log[from + i].kind),
        a != b ==> tag_of_kind(a) != tag_of_kind(b),
        tag_of_kind(LogKind::Notice) == 0 && tag_of_kind(LogKind::Detail) == 1,
{
}

/// Law: every box that stands for a row with a tick is painted with the tick of its
/// own row, and no other box is painted.
pub proof fn law_boxes_show_their_rows(
    boxes: Seq<Bound>,
    checks: Seq<Option<Check>>,
    n: nat,
    i: int,
    k: int,
)
    requires
        n <= boxes.len(),
    ensures
        0 <= i < n && boxes[i].idx < checks.len() && checks[boxes[i].idx as int] is Some
            ==> repainted(boxes, checks, n).contains(
            (boxes[i].widget, checks[boxes[i].idx as int]->0),
        ),
        0 <= k < repainted(boxes, checks, n).len() ==> exists|j: int|
            0 <= j < n && (#[trigger] boxes[j]).idx < checks.len() && checks[boxes[j].idx as int]
                == Some(repainted(boxes, checks, n)[k].1) && boxes[j].widget == repainted(
                boxes,
                checks,
                n,
            )[k].0,
    decreases n,
{
    if n > 0 {
        let before = repainted(boxes, checks, (n - 1) as nat);
        let all = repainted(boxes, checks, n);
        law_boxes_show_their_rows(boxes, checks, (n - 1) as nat, i, k);
        if 0 <= i < n - 1 && boxes[i].idx < checks.len() && checks[boxes[i].idx as int] is Some {
            let p = (boxes[i].widget, checks[boxes[i].idx as int]->0);
            let j = before.index_of(p);
            assert(all[j] == before[j]);
        } else if i == n - 1 && boxes[i].idx < checks.len() && checks[boxes[i].idx as int] is Some {
            assert(all[all.len() - 1] == (boxes[i].widget, checks[boxes[i].idx as int]->0));
        }
        if before.len() <= k < all.len() {
            assert(boxes[n - 1].idx < checks.len());
        }
    }
}

} // verus!

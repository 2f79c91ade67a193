//! The selection-and-apply flow: interpreting the strings that the system
//! queries report, resolving a user's choice of display names back to system
//! identifiers, and building the exact command sequence that applies a
//! selection.  Running the queries and the commands is the caller's business;
//! the library only states what they are.

use vstd::prelude::*;
use vstd::string::*;
use crate::lookup::{code_for_name, find_name};
use crate::tables::Entry;
use crate::text::{split_seq, split_str, trim_seq, trim_str};

verus! {

/// A chosen keyboard code, display locale code and timezone identifier.
pub struct Selection {
    pub keyboard: String,
    pub display_locale: String,
    pub timezone: String,
}

/// The locale reported by the system, reduced to its bare value: trimmed,
/// the part after `=` taken where one occurs, and the encoding suffix after
/// the first `.` dropped.
pub open spec fn spec_locale_value(raw: Seq<char>) -> Seq<char> {
    let t = trim_seq(raw);
    let u = if t.contains('=') {
        split_seq(t, '=')[1]
    } else {
        t
    };
    split_seq(u, '.')[0]
}

/// A text splits into at least two parts exactly when it contains the
/// delimiter.
pub proof fn lemma_split_seq_contains(s: Seq<char>, d: char)
    ensures
        (split_seq(s, d).len() >= 2) == s.contains(d),
    decreases s.len(),
{
    crate::text::lemma_split_seq_len(s, d);
    if s.len() == 0 {
        assert(!s.contains(d));
    } else {
        let s2 = s.drop_first();
        lemma_split_seq_contains(s2, d);
        crate::text::lemma_split_seq_len(s2, d);
        if s.first() == d {
            assert(s.contains(d)) by {
                assert(s[0] == d);
            }
        } else {
            assert(split_seq(s, d).len() == split_seq(s2, d).len());
            if s2.contains(d) {
                let i = choose|i: int| 0 <= i < s2.len() && s2[i] == d;
                assert(s[i + 1] == d);
                assert(s.contains(d));
            } else {
                if s.contains(d) {
                    let i = choose|i: int| 0 <= i < s.len() && s[i] == d;
                    assert(i != 0);
                    assert(s2[i - 1] == d);
                    assert(s2.contains(d));
                }
            }
        }
    }
}

/// Reduces the raw output of the system locale query to the bare locale
/// value, as in `LANG=de_DE.UTF-8` giving `de_DE`.
pub fn parse_locale_output(raw: &str) -> (r: String)
    ensures
        r@ == spec_locale_value(raw@),
{
    let t = trim_str(raw);
    proof {
        lemma_split_seq_contains(t@, '=');
    }
    let parts = split_str(t.as_str(), '=');
    let u = if parts.len() >= 2 {
        proof {
            assert(parts@[1]@ == crate::text::views_of(parts@)[1]);
        }
        parts[1].clone()
    } else {
        t
    };
    proof {
        crate::text::lemma_split_seq_len(u@, '.');
    }
    let dots = split_str(u.as_str(), '.');
    proof {
        assert(dots@[0]@ == crate::text::views_of(dots@)[0]);
    }
    dots[0].clone()
}

/// Reduces the raw output of the system keymap query to the bare keymap
/// code: the trimmed text.
pub fn parse_keymap_output(raw: &str) -> (r: String)
    ensures
        r@ == trim_seq(raw@),
{
    trim_str(raw)
}

/// Reduces the raw output of the system timezone query to the bare timezone
/// identifier: the trimmed text.
pub fn parse_timezone_output(raw: &str) -> (r: String)
    ensures
        r@ == trim_seq(raw@),
{
    trim_str(raw)
}

/// Resolves the chosen display names back to their codes: the keyboard name
/// against the language code table and the display name against the locale
/// table.  Returns `None` exactly when one of the names occurs in no entry
/// of its table.
pub fn resolve_selection(
    language_codes: &Vec<Entry>,
    locales: &Vec<Entry>,
    keyboard_name: &str,
    display_name: &str,
    timezone: &str,
) -> (r: Option<Selection>)
    ensures
        (r is Some) == (find_name(language_codes@, keyboard_name@) >= 0 && find_name(
            locales@,
            display_name@,
        ) >= 0),
        r matches Some(sel) ==> sel.keyboard@ == language_codes@[find_name(
            language_codes@,
            keyboard_name@,
        )].code@ && sel.display_locale@ == locales@[find_name(locales@, display_name@)].code@
            && sel.timezone@ == timezone@,
{
    let keyboard = match code_for_name(language_codes, keyboard_name) {
        Some(keyboard) => keyboard,
        None => {
            return None;
        },
    };
    let display_locale = match code_for_name(locales, display_name) {
        Some(display_locale) => display_locale,
        None => {
            return None;
        },
    };
    Some(
        Selection {
            keyboard,
            display_locale,
            timezone: timezone.to_owned(),
        },
    )
}

/// The fixed command sequence that applies a selection: keymap for the
/// session and persistently, locale generation and configuration, timezone,
/// the shell profile, and the desktop session restart.  Exactly these ten
/// commands, in exactly this order; the caller runs them one after another
/// whatever each one's exit status is.
pub fn apply_selection(keyboard_language_code: &str, display_locale: &str, timezone: &str) -> (r:
    Vec<String>)
    ensures
        r@.len() == 10,
        r@[0]@ == "loadkeys "@ + keyboard_language_code@,
        r@[1]@ == "localectl set-keymap "@ + keyboard_language_code@,
        r@[2]@ == "setxkbmap -layout "@ + keyboard_language_code@ + " -option caps:escape"@,
        r@[3]@ == "echo '"@ + display_locale@ + ".UTF-8 UTF-8' > /etc/locale.gen"@,
        r@[4]@ == "locale-gen"@,
        r@[5]@ == "localectl set-locale LANG="@ + display_locale@ + ".UTF-8 --no-ask-password"@,
        r@[6]@ == "timedatectl set-timezone "@ + timezone@ + " --no-ask-password"@,
        r@[7]@ == "echo 'export LANG="@ + display_locale@ + ".UTF-8' > ~/.zshrc"@,
        r@[8]@ == "echo 'startxfce4 &' >> ~/.zshrc"@,
        r@[9]@ == "pkill xfce4"@,
{
    let mut commands: Vec<String> = Vec::new();

    let mut cmd = String::from_str("loadkeys ");
    cmd.append(keyboard_language_code);
    commands.push(cmd);

    let mut cmd = String::from_str("localectl set-keymap ");
    cmd.append(keyboard_language_code);
    commands.push(cmd);

    let mut cmd = String::from_str("setxkbmap -layout ");
    cmd.append(keyboard_language_code);
    cmd.append(" -option caps:escape");
    commands.push(cmd);

    let mut cmd = String::from_str("echo '");
    cmd.append(display_locale);
    cmd.append(".UTF-8 UTF-8' > /etc/locale.gen");
    commands.push(cmd);

    commands.push(String::from_str("locale-gen"));

    let mut cmd = String::from_str("localectl set-locale LANG=");
    cmd.append(display_locale);
    cmd.append(".UTF-8 --no-ask-password");
    commands.push(cmd);

    let mut cmd = String::from_str("timedatectl set-timezone ");
    cmd.append(timezone);
    cmd.append(" --no-ask-password");
    commands.push(cmd);

    let mut cmd = String::from_str("echo 'export LANG=");
    cmd.append(display_locale);
    cmd.append(".UTF-8' > ~/.zshrc");
    commands.push(cmd);

    commands.push(String::from_str("echo 'startxfce4 &' >> ~/.zshrc"));

    commands.push(String::from_str("pkill xfce4"));

    commands
}

} // verus!

//! The command that a pipe message carries: what to decorate, with which
//! emojis, and for how long.
//!
//! The arguments arrive as pairs of key and value; where a key occurs more
//! than once its last value counts. Shortcodes between colons are replaced
//! by their emoji.

use crate::text::{
    chars_of, extend_chars, find, find_from, lemma_find_some, parse_unsigned, slice_chars,
    string_of, trim, trim_chars, unsigned_value,
};
use crate::title::{pin, same_text};
use vstd::prelude::*;

verus! {

/// How long a decoration lasts.
#[derive(Debug, Clone, Copy, PartialEq, Eq, Structural)]
pub enum Mode {
    /// Stripped once its pane or tab is looked at.
    Temp,
    /// Kept until replaced.
    Permanent,
}

/// What a command decorates.
#[derive(Debug, Clone, Copy, PartialEq, Eq, Structural)]
pub enum Target {
    Pane { pane_id: Option<u32> },
    Tab { pane_id: Option<u32>, tab_index: Option<usize> },
}

/// A validated command.
#[derive(Debug, PartialEq, Eq)]
pub struct Command {
    pub target: Target,
    pub emojis: String,
    pub mode: Mode,
}

/// The model of a command.
pub struct CommandView {
    pub target: Target,
    pub emojis: Seq<char>,
    pub mode: Mode,
}

impl View for Command {
    type V = CommandView;

    open spec fn view(&self) -> CommandView {
        CommandView { target: self.target, emojis: self.emojis@, mode: self.mode }
    }
}

impl Clone for Command {
    fn clone(&self) -> (copy: Self)
        ensures
            copy@ == self@,
    {
        Command { target: self.target, emojis: self.emojis.clone(), mode: self.mode }
    }
}

/// The emoji that the shortcode table of the `emojis` crate holds for a
/// shortcode.
pub uninterp spec fn emoji_for_shortcode(code: Seq<char>) -> Option<Seq<char>>;

/// Looks a shortcode up with `emojis::get_by_shortcode`, a search in a
/// fixed table, and hands out the text of the emoji found.
#[verifier::external_body]
fn lookup_shortcode(code: &str) -> (r: Option<String>)
    ensures
        match r {
            Some(emoji) => emoji_for_shortcode(code@) == Some(emoji@),
            None => emoji_for_shortcode(code@) is None,
        },
{
    match emojis::get_by_shortcode(code) {
        Some(emoji) => Some(emoji.as_str().to_string()),
        None => None,
    }
}

/// The text of one colon.
pub open spec fn colon() -> Seq<char> {
    seq![':']
}

/// The text from `pos` on with its shortcodes replaced. A shortcode stands
/// between a colon and the next colon; where the table knows it, the two
/// colons and the shortcode give way to the emoji, and the search goes on
/// behind them; where it does not, the search goes on at the second colon.
pub open spec fn replaced_from(s: Seq<char>, pos: int) -> Seq<char>
    decreases s.len() - pos,
{
    let rest = s.subrange(pos, s.len() as int);
    match find(s, colon(), pos) {
        None => rest,
        Some(open) => match find(s, colon(), open + 1) {
            None => rest,
            Some(close) => if pos <= open < close < s.len() {
                match emoji_for_shortcode(s.subrange(open + 1, close)) {
                    Some(emoji) => s.subrange(pos, open) + emoji + replaced_from(s, close + 1),
                    None => s.subrange(pos, close) + replaced_from(s, close),
                }
            } else {
                rest
            },
        },
    }
}

/// The text with its shortcodes replaced.
pub open spec fn replaced(s: Seq<char>) -> Seq<char> {
    replaced_from(s, 0)
}

/// Writes out what one shortcode site gives, and says where the search goes
/// on. The site is the text of `s` from `pos` to the colon at `close`, with
/// the shortcode between the colons at `open` and `close`; `emoji` is what
/// the table holds for that shortcode.
pub fn splice_shortcode(
    out: &mut Vec<char>,
    s: &Vec<char>,
    pos: usize,
    open: usize,
    close: usize,
    emoji: Option<String>,
) -> (next: usize)
    requires
        pos <= open < close < s.len(),
    ensures
        match emoji {
            Some(e) => final(out)@ == old(out)@ + s@.subrange(pos as int, open as int) + e@ && next
                == close + 1,
            None => final(out)@ == old(out)@ + s@.subrange(pos as int, close as int) && next
                == close,
        },
{
    match emoji {
        Some(e) => {
            extend_chars(out, &slice_chars(s, pos, open));
            extend_chars(out, &chars_of(e.as_str()));
            close + 1
        },
        None => {
            extend_chars(out, &slice_chars(s, pos, close));
            close
        },
    }
}

/// Replaces each known shortcode between colons by its emoji.
pub fn replace_colon_emoji(s: &str) -> (r: String)
    ensures
        r@ == replaced(s@),
{
    let chars = chars_of(s);
    let mut colon_chars: Vec<char> = Vec::new();
    colon_chars.push(':');
    assert(colon_chars@ =~= colon());
    let mut out: Vec<char> = Vec::new();
    let mut pos: usize = 0;
    assert(out@ + replaced_from(chars@, 0) =~= replaced_from(chars@, 0));
    loop
        invariant
            pos <= chars.len(),
            colon_chars@ == colon(),
            replaced_from(chars@, 0) == out@ + replaced_from(chars@, pos as int),
        ensures
            pos <= chars.len(),
            replaced_from(chars@, 0) == out@ + chars@.subrange(pos as int, chars.len() as int),
        decreases chars.len() - pos,
    {
        match find_from(&chars, &colon_chars, pos) {
            None => {
                break ;
            },
            Some(open) => {
                proof {
                    lemma_find_some(chars@, colon(), pos as int);
                }
                match find_from(&chars, &colon_chars, open + 1) {
                    None => {
                        break ;
                    },
                    Some(close) => {
                        proof {
                            lemma_find_some(chars@, colon(), open + 1);
                        }
                        let code = string_of(&slice_chars(&chars, open + 1, close));
                        let emoji = lookup_shortcode(code.as_str());
                        let ghost before = out@;
                        let ghost site = pos;
                        pos = splice_shortcode(&mut out, &chars, pos, open, close, emoji);
                        assert(before + replaced_from(chars@, site as int) =~= out@
                            + replaced_from(chars@, pos as int));
                    },
                }
            },
        }
    }
    extend_chars(&mut out, &slice_chars(&chars, pos, chars.len()));
    string_of(&out)
}

/// The mode that a decoration asks for: permanent where it begins with the
/// pin glyph.
pub open spec fn mode_of(emojis: Seq<char>) -> Mode {
    if emojis.len() > 0 && emojis[0] == pin() {
        Mode::Permanent
    } else {
        Mode::Temp
    }
}

/// The mode that a decoration asks for.
pub fn mode_from_emojis(emojis: &str) -> (mode: Mode)
    ensures
        mode == mode_of(emojis@),
{
    let chars = chars_of(emojis);
    if chars.len() > 0 && chars[0] == '\u{1F4CC}' {
        Mode::Permanent
    } else {
        Mode::Temp
    }
}

/// The text that says that the value of `key` is no number.
pub open spec fn not_a_number(key: Seq<char>) -> Seq<char> {
    key + " must be an unsigned integer"@
}

/// The number that an optional argument writes: none where the argument is
/// missing, an error where its value is no unsigned number up to `max`.
pub open spec fn optional_number(value: Option<Seq<char>>, key: Seq<char>, max: nat) -> Result<
    Option<nat>,
    Seq<char>,
> {
    match value {
        None => Ok(None),
        Some(v) => match unsigned_value(v, max) {
            Some(n) => Ok(Some(n)),
            None => Err(not_a_number(key)),
        },
    }
}

/// The two texts, one after the other.
fn joined(a: &str, b: &str) -> (r: String)
    ensures
        r@ == a@ + b@,
{
    let mut out = chars_of(a);
    extend_chars(&mut out, &chars_of(b));
    string_of(&out)
}

/// Reads an optional argument as an unsigned number up to `max`.
fn parse_optional_number(value: Option<&String>, key: &str, max: u64) -> (r: Result<
    Option<u64>,
    String,
>)
    ensures
        match r {
            Ok(Some(n)) => optional_number(text_of_ref(value), key@, max as nat) == Ok::<
                Option<nat>,
                Seq<char>,
            >(Some(n as nat)),
            Ok(None) => optional_number(text_of_ref(value), key@, max as nat) == Ok::<
                Option<nat>,
                Seq<char>,
            >(None),
            Err(e) => optional_number(text_of_ref(value), key@, max as nat) == Err::<
                Option<nat>,
                Seq<char>,
            >(e@),
        },
{
    match value {
        None => Ok(None),
        Some(v) => match parse_unsigned(&chars_of(v.as_str()), max) {
            Some(n) => Ok(Some(n)),
            None => Err(joined(key, " must be an unsigned integer")),
        },
    }
}

/// The text of a string that may be missing.
pub open spec fn text_of_ref(s: Option<&String>) -> Option<Seq<char>> {
    match s {
        Some(t) => Some(t@),
        None => None,
    }
}

/// Reads an optional argument as a pane id.
pub fn parse_optional_u32(value: Option<&String>, key: &str) -> (r: Result<Option<u32>, String>)
    ensures
        match r {
            Ok(Some(n)) => optional_number(text_of_ref(value), key@, u32::MAX as nat) == Ok::<
                Option<nat>,
                Seq<char>,
            >(Some(n as nat)),
            Ok(None) => optional_number(text_of_ref(value), key@, u32::MAX as nat) == Ok::<
                Option<nat>,
                Seq<char>,
            >(None),
            Err(e) => optional_number(text_of_ref(value), key@, u32::MAX as nat) == Err::<
                Option<nat>,
                Seq<char>,
            >(e@),
        },
{
    match parse_optional_number(value, key, 0xffff_ffff) {
        Ok(Some(n)) => Ok(Some(n as u32)),
        Ok(None) => Ok(None),
        Err(e) => Err(e),
    }
}

/// Reads an optional argument as a tab position.
pub fn parse_optional_usize(value: Option<&String>, key: &str) -> (r: Result<Option<usize>, String>)
    ensures
        match r {
            Ok(Some(n)) => optional_number(text_of_ref(value), key@, usize::MAX as nat) == Ok::<
                Option<nat>,
                Seq<char>,
            >(Some(n as nat)),
            Ok(None) => optional_number(text_of_ref(value), key@, usize::MAX as nat) == Ok::<
                Option<nat>,
                Seq<char>,
            >(None),
            Err(e) => optional_number(text_of_ref(value), key@, usize::MAX as nat) == Err::<
                Option<nat>,
                Seq<char>,
            >(e@),
        },
{
    match parse_optional_number(value, key, usize::MAX as u64) {
        Ok(Some(n)) => Ok(Some(n as usize)),
        Ok(None) => Ok(None),
        Err(e) => Err(e),
    }
}

/// The models of a list of arguments.
pub open spec fn arg_views(args: Seq<(String, String)>) -> Seq<(Seq<char>, Seq<char>)> {
    args.map_values(|a: (String, String)| (a.0@, a.1@))
}

/// The value of the last argument with the key `key`.
pub open spec fn arg(args: Seq<(Seq<char>, Seq<char>)>, key: Seq<char>) -> Option<Seq<char>>
    decreases args.len(),
{
    if args.len() == 0 {
        None
    } else if args.last().0 == key {
        Some(args.last().1)
    } else {
        arg(args.drop_last(), key)
    }
}

/// The value of the last argument with the key `key`.
fn get_arg<'a>(args: &'a Vec<(String, String)>, key: &str) -> (r: Option<&'a String>)
    ensures
        text_of_ref(r) == arg(arg_views(args@), key@),
{
    let ghost all = arg_views(args@);
    let mut i: usize = args.len();
    assert(all.take(i as int) =~= all);
    while i > 0
        invariant
            i <= args.len(),
            all == arg_views(args@),
            arg(all, key@) == arg(all.take(i as int), key@),
        decreases i,
    {
        i -= 1;
        assert(all.take(i + 1).last() == all[i as int]);
        assert(all.take(i + 1).drop_last() =~= all.take(i as int));
        if same_text(args[i].0.as_str(), key) {
            return Some(&args[i].1);
        }
    }
    None
}

/// An optional number as a pane id.
pub open spec fn as_u32(n: Option<nat>) -> Option<u32> {
    match n {
        Some(v) => Some(v as u32),
        None => None,
    }
}

/// An optional number as a tab position.
pub open spec fn as_usize(n: Option<nat>) -> Option<usize> {
    match n {
        Some(v) => Some(v as usize),
        None => None,
    }
}

/// The target that the arguments name, once the emojis are known to be in
/// order.
pub open spec fn parsed_target(args: Seq<(Seq<char>, Seq<char>)>, target: Seq<char>) -> Result<
    Target,
    Seq<char>,
> {
    let pane_id = optional_number(arg(args, "pane_id"@), "pane_id"@, u32::MAX as nat);
    let tab_index = optional_number(arg(args, "tab_index"@), "tab_index"@, usize::MAX as nat);
    if target == "pane"@ {
        match pane_id {
            Err(e) => Err(e),
            Ok(id) => if arg(args, "tab_index"@) is Some {
                Err("tab_index is not allowed when target=pane"@)
            } else {
                Ok(Target::Pane { pane_id: as_u32(id) })
            },
        }
    } else if target == "tab"@ {
        match (pane_id, tab_index) {
            (Err(e), _) => Err(e),
            (Ok(_), Err(e)) => Err(e),
            (Ok(id), Ok(index)) => if arg(args, "tab_position"@) is Some {
                Err("tab_position is no longer supported; use tab_index"@)
            } else if id is Some && index is Some {
                Err("pane_id and tab_index cannot be set together when target=tab"@)
            } else {
                Ok(Target::Tab { pane_id: as_u32(id), tab_index: as_usize(index) })
            },
        }
    } else {
        Err("unsupported target: "@ + target)
    }
}

/// The command that the arguments give, or the text that says what is
/// wrong with them. The checks are made in this order: the target is
/// there; the emojis are there; the emojis, trimmed and with their
/// shortcodes replaced, are not empty; no mode is given, since the pin
/// glyph decides it; the target is in order.
pub open spec fn parsed(args: Seq<(Seq<char>, Seq<char>)>) -> Result<CommandView, Seq<char>> {
    match (arg(args, "target"@), arg(args, "emojis"@)) {
        (None, _) => Err("missing required arg: target"@),
        (Some(_), None) => Err("missing required arg: emojis"@),
        (Some(target), Some(raw)) => {
            let emojis = replaced(trim(raw));
            if emojis.len() == 0 {
                Err("emojis must not be empty"@)
            } else if arg(args, "mode"@) is Some {
                Err("mode is not an argument; begin the emojis with the pin to keep them"@)
            } else {
                match parsed_target(args, target) {
                    Ok(t) => Ok(CommandView { target: t, emojis, mode: mode_of(emojis) }),
                    Err(e) => Err(e),
                }
            }
        },
    }
}

/// Reads the target of a command.
fn parse_target(args: &Vec<(String, String)>, target: &str) -> (r: Result<Target, String>)
    ensures
        match r {
            Ok(t) => parsed_target(arg_views(args@), target@) == Ok::<Target, Seq<char>>(t),
            Err(e) => parsed_target(arg_views(args@), target@) == Err::<Target, Seq<char>>(e@),
        },
{
    if same_text(target, "pane") {
        let pane_id = match parse_optional_u32(get_arg(args, "pane_id"), "pane_id") {
            Ok(id) => id,
            Err(e) => {
                return Err(e);
            },
        };
        if get_arg(args, "tab_index").is_some() {
            return Err("tab_index is not allowed when target=pane".to_owned());
        }
        Ok(Target::Pane { pane_id })
    } else if same_text(target, "tab") {
        let pane_id = match parse_optional_u32(get_arg(args, "pane_id"), "pane_id") {
            Ok(id) => id,
            Err(e) => {
                return Err(e);
            },
        };
        let tab_index = match parse_optional_usize(get_arg(args, "tab_index"), "tab_index") {
            Ok(index) => index,
            Err(e) => {
                return Err(e);
            },
        };
        if get_arg(args, "tab_position").is_some() {
            return Err("tab_position is no longer supported; use tab_index".to_owned());
        }
        if pane_id.is_some() && tab_index.is_some() {
            return Err("pane_id and tab_index cannot be set together when target=tab".to_owned());
        }
        Ok(Target::Tab { pane_id, tab_index })
    } else {
        Err(joined("unsupported target: ", target))
    }
}

/// Reads a command from the arguments of a pipe message.
pub fn parse_args(args: &Vec<(String, String)>) -> (r: Result<Command, String>)
    ensures
        match r {
            Ok(command) => parsed(arg_views(args@)) == Ok::<CommandView, Seq<char>>(command@),
            Err(e) => parsed(arg_views(args@)) == Err::<CommandView, Seq<char>>(e@),
        },
{
    let target = match get_arg(args, "target") {
        Some(t) => t,
        None => {
            return Err("missing required arg: target".to_owned());
        },
    };
    let raw = match get_arg(args, "emojis") {
        Some(e) => e,
        None => {
            return Err("missing required arg: emojis".to_owned());
        },
    };
    let trimmed = string_of(&trim_chars(&chars_of(raw.as_str())));
    let emojis = replace_colon_emoji(trimmed.as_str());
    if emojis.as_str().is_empty() {
        return Err("emojis must not be empty".to_owned());
    }
    if get_arg(args, "mode").is_some() {
        return Err(
            "mode is not an argument; begin the emojis with the pin to keep them".to_owned(),
        );
    }
    let mode = mode_from_emojis(emojis.as_str());
    match parse_target(args, target.as_str()) {
        Ok(target) => Ok(Command { target, emojis, mode }),
        Err(e) => Err(e),
    }
}

} // verus!

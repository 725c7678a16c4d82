//! The warning before a deletion, and the answer to it.
use vstd::prelude::*;
use crate::paint::{
    bold, bright_cyan_bold, bright_red, bright_red_bold, bright_white_bold, green, yellow,
    yellow_bold,
};
use crate::text::decimal;
#[allow(unused_imports)]
use crate::paint::is_paint;
#[allow(unused_imports)]
use crate::text::decimal_text;

verus! {

/// What kind of destruction is ahead.
#[derive(Clone, Copy, PartialEq, Eq, Structural)]
pub enum Mode {
    /// Deletion for good.
    Rip,
    /// A move to the Recycle Bin or trash, which can be undone.
    Trash,
}

/// So many paths are listed by name.
pub const MAX_SHOWN: usize = 12;

/// The width of the rules across a warning.
pub const RULE_WIDTH: usize = 66;

/// A rule across a warning.
pub open spec fn rule_text() -> Seq<char> {
    Seq::new(RULE_WIDTH as nat, |i: int| '━')
}

/// `text` and a line break.
pub open spec fn line(text: Seq<char>) -> Seq<char> {
    text + "\n"@
}

/// One line for each of `names`.
pub open spec fn name_lines(bullet: Seq<char>, names: Seq<Seq<char>>) -> Seq<char>
    decreases names.len(),
{
    if names.len() == 0 {
        Seq::empty()
    } else {
        name_lines(bullet, names.drop_last()) + line("    "@ + bullet + " "@ + names.last())
    }
}

/// The list of `total` paths: the names that are shown, and how many more there
/// are.
pub open spec fn listing(bullet: Seq<char>, names: Seq<Seq<char>>, total: nat) -> Seq<char> {
    if total > MAX_SHOWN {
        name_lines(bullet, names) + line(
            "    "@ + bullet + " … and "@ + decimal_text((total - MAX_SHOWN) as nat) + " more"@,
        )
    } else {
        name_lines(bullet, names)
    }
}

/// The question at the end of a warning.
pub open spec fn question(message: Seq<char>, arrow: Seq<char>) -> Seq<char> {
    "  "@ + message + " "@ + arrow + " "@
}

/// The texts of a list of strings.
pub open spec fn texts(list: Seq<String>) -> Seq<Seq<char>> {
    list.map_values(|s: String| s@)
}

/// The painted parts of the warning before a deletion for good.
pub struct RipInk {
    pub rule: String,
    pub title: String,
    pub permanently: String,
    pub count: String,
    pub bullet: String,
    pub names: Vec<String>,
    pub cross: String,
    pub undone: String,
    pub key: String,
    pub arrow: String,
}

/// The painted parts, by their text.
pub struct RipInkView {
    pub rule: Seq<char>,
    pub title: Seq<char>,
    pub permanently: Seq<char>,
    pub count: Seq<char>,
    pub bullet: Seq<char>,
    pub names: Seq<Seq<char>>,
    pub cross: Seq<char>,
    pub undone: Seq<char>,
    pub key: Seq<char>,
    pub arrow: Seq<char>,
}

impl View for RipInk {
    type V = RipInkView;

    open spec fn view(&self) -> RipInkView {
        RipInkView {
            rule: self.rule@,
            title: self.title@,
            permanently: self.permanently@,
            count: self.count@,
            bullet: self.bullet@,
            names: texts(self.names@),
            cross: self.cross@,
            undone: self.undone@,
            key: self.key@,
            arrow: self.arrow@,
        }
    }
}

/// The warning before a deletion of `total` paths for good, with the question.
pub open spec fn rip_warning(ink: RipInkView, total: nat) -> Seq<char> {
    line(""@) + line(ink.rule) + line(ink.title) + line(ink.rule) + line(""@) + line(
        "  About to "@ + ink.permanently + " delete "@ + ink.count + " path(s):"@,
    ) + listing(ink.bullet, ink.names, total) + line(""@) + line(
        "  This is what \"rip\" means:"@,
    ) + line("    "@ + ink.cross + "  No Recycle Bin — "@ + ink.undone + "."@) + line(
        "    "@ + ink.cross + "  Read-only files are deleted anyway (IGNORE_READONLY)."@,
    ) + line("    "@ + ink.cross + "  Files still in use are force-removed (POSIX_SEMANTICS)."@)
        + line(""@) + question(
        "Type "@ + ink.key + " to rip it out — anything else aborts"@,
        ink.arrow,
    )
}

/// The painted parts of the warning before a move to the Recycle Bin.
pub struct TrashInk {
    pub rule: String,
    pub title: String,
    pub count: String,
    pub recoverable: String,
    pub bullet: String,
    pub names: Vec<String>,
    pub key: String,
    pub arrow: String,
}

/// The painted parts, by their text.
pub struct TrashInkView {
    pub rule: Seq<char>,
    pub title: Seq<char>,
    pub count: Seq<char>,
    pub recoverable: Seq<char>,
    pub bullet: Seq<char>,
    pub names: Seq<Seq<char>>,
    pub key: Seq<char>,
    pub arrow: Seq<char>,
}

impl View for TrashInk {
    type V = TrashInkView;

    open spec fn view(&self) -> TrashInkView {
        TrashInkView {
            rule: self.rule@,
            title: self.title@,
            count: self.count@,
            recoverable: self.recoverable@,
            bullet: self.bullet@,
            names: texts(self.names@),
            key: self.key@,
            arrow: self.arrow@,
        }
    }
}

/// The warning before `total` paths are moved to the Recycle Bin, with the
/// question.
pub open spec fn trash_warning(ink: TrashInkView, total: nat) -> Seq<char> {
    line(""@) + line(ink.rule) + line(ink.title) + line(ink.rule) + line(""@) + line(
        "  About to move "@ + ink.count + " path(s) to the Recycle Bin ("@ + ink.recoverable
            + "):"@,
    ) + listing(ink.bullet, ink.names, total) + line(""@) + question(
        "Type "@ + ink.key + " to continue — anything else aborts"@,
        ink.arrow,
    )
}

/// Appends one after the other.
fn push2(text: &mut String, a: &str, b: &str)
    ensures
        final(text)@ == old(text)@ + (a@ + b@),
{
    text.append(a);
    text.append(b);
    assert(text@ =~= old(text)@ + (a@ + b@));
}

/// Appends a line of text.
fn push_line(text: &mut String, a: &str)
    ensures
        final(text)@ == old(text)@ + line(a@),
{
    push2(text, a, "\n");
}

/// Appends a line for one path.
fn push_name(text: &mut String, bullet: &str, name: &str)
    ensures
        final(text)@ == old(text)@ + line("    "@ + bullet@ + " "@ + name@),
{
    text.append("    ");
    text.append(bullet);
    text.append(" ");
    text.append(name);
    text.append("\n");
    assert(text@ =~= old(text)@ + line("    "@ + bullet@ + " "@ + name@));
}

/// Writes the list of `total` paths, of which `names` are shown.
pub fn render_list(bullet: &str, names: &Vec<String>, total: usize) -> (text: String)
    ensures
        text@ == listing(bullet@, texts(names@), total as nat),
{
    let mut text = String::new();
    let ghost all = texts(names@);
    let mut i: usize = 0;
    while i < names.len()
        invariant
            all == texts(names@),
            i <= names.len(),
            text@ == name_lines(bullet@, all.take(i as int)),
        decreases names.len() - i,
    {
        push_name(&mut text, bullet, names[i].as_str());
        i += 1;
        proof {
            assert(all.take(i as int).drop_last() =~= all.take(i - 1));
            assert(all.take(i as int).last() == names@[i - 1]@);
        }
    }
    assert(all.take(all.len() as int) =~= all);
    if total > MAX_SHOWN {
        let more = decimal((total - MAX_SHOWN) as u64);
        text.append("    ");
        text.append(bullet);
        text.append(" … and ");
        text.append(more.as_str());
        text.append(" more");
        text.append("\n");
        assert(text@ =~= listing(bullet@, all, total as nat));
    }
    text
}

/// Writes the question at the end of a warning.
pub fn prompt(message: &str, arrow: &str) -> (text: String)
    ensures
        text@ == question(message@, arrow@),
{
    let mut text = "  ".to_owned();
    text.append(message);
    text.append(" ");
    text.append(arrow);
    text.append(" ");
    text
}

/// Writes the warning before a deletion of `total` paths for good, from its
/// painted parts.
pub fn render_rip(ink: &RipInk, total: usize) -> (text: String)
    ensures
        text@ == rip_warning(ink@, total as nat),
{
    let mut about = "  About to ".to_owned();
    about.append(ink.permanently.as_str());
    about.append(" delete ");
    about.append(ink.count.as_str());
    about.append(" path(s):");
    let mut recycle = "    ".to_owned();
    recycle.append(ink.cross.as_str());
    recycle.append("  No Recycle Bin — ");
    recycle.append(ink.undone.as_str());
    recycle.append(".");
    let mut readonly = "    ".to_owned();
    readonly.append(ink.cross.as_str());
    readonly.append("  Read-only files are deleted anyway (IGNORE_READONLY).");
    let mut in_use = "    ".to_owned();
    in_use.append(ink.cross.as_str());
    in_use.append("  Files still in use are force-removed (POSIX_SEMANTICS).");
    let mut message = "Type ".to_owned();
    message.append(ink.key.as_str());
    message.append(" to rip it out — anything else aborts");
    let list = render_list(ink.bullet.as_str(), &ink.names, total);
    let ask = prompt(message.as_str(), ink.arrow.as_str());

    let mut text = "".to_owned();
    text.append("\n");
    push_line(&mut text, ink.rule.as_str());
    push_line(&mut text, ink.title.as_str());
    push_line(&mut text, ink.rule.as_str());
    push_line(&mut text, "");
    push_line(&mut text, about.as_str());
    text.append(list.as_str());
    push_line(&mut text, "");
    push_line(&mut text, "  This is what \"rip\" means:");
    push_line(&mut text, recycle.as_str());
    push_line(&mut text, readonly.as_str());
    push_line(&mut text, in_use.as_str());
    push_line(&mut text, "");
    text.append(ask.as_str());
    text
}

/// Writes the warning before `total` paths are moved to the Recycle Bin, from
/// its painted parts.
pub fn render_trash(ink: &TrashInk, total: usize) -> (text: String)
    ensures
        text@ == trash_warning(ink@, total as nat),
{
    let mut about = "  About to move ".to_owned();
    about.append(ink.count.as_str());
    about.append(" path(s) to the Recycle Bin (");
    about.append(ink.recoverable.as_str());
    about.append("):");
    let mut message = "Type ".to_owned();
    message.append(ink.key.as_str());
    message.append(" to continue — anything else aborts");
    let list = render_list(ink.bullet.as_str(), &ink.names, total);
    let ask = prompt(message.as_str(), ink.arrow.as_str());

    let mut text = "".to_owned();
    text.append("\n");
    push_line(&mut text, ink.rule.as_str());
    push_line(&mut text, ink.title.as_str());
    push_line(&mut text, ink.rule.as_str());
    push_line(&mut text, "");
    push_line(&mut text, about.as_str());
    text.append(list.as_str());
    push_line(&mut text, "");
    text.append(ask.as_str());
    text
}

/// So many of `total` paths are shown by name.
pub open spec fn shown(total: nat) -> nat {
    if total < MAX_SHOWN {
        total
    } else {
        MAX_SHOWN as nat
    }
}

/// `names` are the first of `paths`, in bold.
pub open spec fn names_inked(names: Seq<Seq<char>>, paths: Seq<Seq<char>>) -> bool {
    &&& names.len() == shown(paths.len())
    &&& forall|i: int| 0 <= i < names.len() ==> is_paint(#[trigger] names[i], paths[i], "1"@)
}

/// `ink` holds the parts of the warning before `paths` are deleted for good.
pub open spec fn rip_inked(ink: RipInkView, paths: Seq<Seq<char>>) -> bool {
    &&& is_paint(ink.rule, rule_text(), "91"@)
    &&& is_paint(ink.title, "  ⚠  RIP  —  PERMANENT DELETION  ⚠"@, "1;91"@)
    &&& is_paint(ink.permanently, "PERMANENTLY"@, "1;91"@)
    &&& is_paint(ink.count, decimal_text(paths.len()), "1"@)
    &&& is_paint(ink.bullet, "•"@, "91"@)
    &&& names_inked(ink.names, paths)
    &&& is_paint(ink.cross, "✗"@, "91"@)
    &&& is_paint(ink.undone, "this cannot be undone"@, "1;97"@)
    &&& is_paint(ink.key, "y"@, "1;91"@)
    &&& is_paint(ink.arrow, "▸"@, "1;96"@)
}

/// `ink` holds the parts of the warning before `paths` are moved to the Recycle
/// Bin.
pub open spec fn trash_inked(ink: TrashInkView, paths: Seq<Seq<char>>) -> bool {
    &&& is_paint(ink.rule, rule_text(), "33"@)
    &&& is_paint(ink.title, "  ♻  RIP  —  MOVE TO RECYCLE BIN"@, "1;33"@)
    &&& is_paint(ink.count, decimal_text(paths.len()), "1"@)
    &&& is_paint(ink.recoverable, "recoverable"@, "32"@)
    &&& is_paint(ink.bullet, "•"@, "33"@)
    &&& names_inked(ink.names, paths)
    &&& is_paint(ink.key, "y"@, "1;33"@)
    &&& is_paint(ink.arrow, "▸"@, "1;96"@)
}

/// `text` is the warning before `paths` are deleted for good, in whatever
/// colours there are.
pub open spec fn is_rip_warning(text: Seq<char>, paths: Seq<Seq<char>>) -> bool {
    exists|ink: RipInkView| #[trigger] rip_inked(ink, paths) && text == rip_warning(ink, paths.len())
}

/// `text` is the warning before `paths` are moved to the Recycle Bin, in
/// whatever colours there are.
pub open spec fn is_trash_warning(text: Seq<char>, paths: Seq<Seq<char>>) -> bool {
    exists|ink: TrashInkView| #[trigger]
        trash_inked(ink, paths) && text == trash_warning(ink, paths.len())
}

/// The names of the paths that are listed, in bold.
fn list_paths(paths: &Vec<String>) -> (names: Vec<String>)
    ensures
        names_inked(texts(names@), texts(paths@)),
{
    let mut names: Vec<String> = Vec::new();
    let mut i: usize = 0;
    while i < paths.len() && i < MAX_SHOWN
        invariant
            i <= paths.len(),
            i <= MAX_SHOWN,
            names.len() == i,
            forall|j: int|
                0 <= j < i ==> is_paint(#[trigger] texts(names@)[j], texts(paths@)[j], "1"@),
        decreases paths.len() - i,
    {
        let ghost before = names@;
        names.push(bold(paths[i].as_str()));
        i += 1;
        assert forall|j: int| 0 <= j < i implies is_paint(
            #[trigger] texts(names@)[j],
            texts(paths@)[j],
            "1"@,
        ) by {
            if j < i - 1 {
                assert(texts(names@)[j] == texts(before)[j]);
            }
        }
    }
    names
}

/// Draws a rule across a warning.
fn rule() -> (text: String)
    ensures
        text@ == rule_text(),
{
    proof {
        reveal_strlit("━");
    }
    let mut text = String::new();
    let mut i: usize = 0;
    while i < RULE_WIDTH
        invariant
            i <= RULE_WIDTH,
            text@ == Seq::new(i as nat, |j: int| '━'),
            "━"@ == seq!['━'],
        decreases RULE_WIDTH - i,
    {
        text.append("━");
        i += 1;
        assert(text@ =~= Seq::new(i as nat, |j: int| '━'));
    }
    text
}

/// Writes the warning before `paths` are deleted for good, with the question.
pub fn warn_rip(paths: &Vec<String>) -> (text: String)
    ensures
        is_rip_warning(text@, texts(paths@)),
{
    let ink = RipInk {
        rule: bright_red(rule().as_str()),
        title: bright_red_bold("  ⚠  RIP  —  PERMANENT DELETION  ⚠"),
        permanently: bright_red_bold("PERMANENTLY"),
        count: bold(decimal(paths.len() as u64).as_str()),
        bullet: bright_red("•"),
        names: list_paths(paths),
        cross: bright_red("✗"),
        undone: bright_white_bold("this cannot be undone"),
        key: bright_red_bold("y"),
        arrow: bright_cyan_bold("▸"),
    };
    assert(rip_inked(ink@, texts(paths@)));
    render_rip(&ink, paths.len())
}

/// Writes the warning before `paths` are moved to the Recycle Bin, with the
/// question.
pub fn warn_trash(paths: &Vec<String>) -> (text: String)
    ensures
        is_trash_warning(text@, texts(paths@)),
{
    let ink = TrashInk {
        rule: yellow(rule().as_str()),
        title: yellow_bold("  ♻  RIP  —  MOVE TO RECYCLE BIN"),
        count: bold(decimal(paths.len() as u64).as_str()),
        recoverable: green("recoverable"),
        bullet: yellow("•"),
        names: list_paths(paths),
        key: yellow_bold("y"),
        arrow: bright_cyan_bold("▸"),
    };
    assert(trash_inked(ink@, texts(paths@)));
    render_trash(&ink, paths.len())
}

/// `text` is the warning that fits what is ahead of `paths`.
pub open spec fn is_warning(mode: Mode, text: Seq<char>, paths: Seq<Seq<char>>) -> bool {
    match mode {
        Mode::Rip => is_rip_warning(text, paths),
        Mode::Trash => is_trash_warning(text, paths),
    }
}

/// Writes the warning that fits what is ahead, with the question.
pub fn confirm(paths: &Vec<String>, mode: Mode) -> (text: String)
    ensures
        is_warning(mode, text@, texts(paths@)),
{
    match mode {
        Mode::Rip => warn_rip(paths),
        Mode::Trash => warn_trash(paths),
    }
}

/// The characters that count as white space: those with the Unicode property
/// `White_Space`.
pub open spec fn white_space(c: char) -> bool {
    let u = c as u32;
    ||| 0x9 <= u <= 0xD
    ||| u == 0x20
    ||| u == 0x85
    ||| u == 0xA0
    ||| u == 0x1680
    ||| 0x2000 <= u <= 0x200A
    ||| u == 0x2028
    ||| u == 0x2029
    ||| u == 0x202F
    ||| u == 0x205F
    ||| u == 0x3000
}

/// `text` without the white space at its start.
pub open spec fn trim_start(text: Seq<char>) -> Seq<char>
    decreases text.len(),
{
    if text.len() > 0 && white_space(text[0]) {
        trim_start(text.skip(1))
    } else {
        text
    }
}

/// `text` without the white space at its end.
pub open spec fn trim_end(text: Seq<char>) -> Seq<char>
    decreases text.len(),
{
    if text.len() > 0 && white_space(text.last()) {
        trim_end(text.drop_last())
    } else {
        text
    }
}

/// `c` in lower case, if it is an ASCII letter.
pub open spec fn lower(c: char) -> char {
    if 'A' <= c <= 'Z' {
        (c as u32 + 32) as char
    } else {
        c
    }
}

/// What an answer is judged by: its letters in lower case, without the white
/// space around them.
pub open spec fn answer_word(reply: Seq<char>) -> Seq<char> {
    trim_end(trim_start(reply)).map_values(|c: char| lower(c))
}

/// The words that mean yes.
pub open spec fn is_yes(word: Seq<char>) -> bool {
    word == "y"@ || word == "yes"@ || word == "rip"@
}

/// Whether a reply agrees. No reply does not.
pub open spec fn agreed(reply: Option<Seq<char>>) -> bool {
    match reply {
        Some(text) => is_yes(answer_word(text)),
        None => false,
    }
}

/// Says whether `c` is white space.
fn is_white_space(c: char) -> (w: bool)
    ensures
        w == white_space(c),
{
    let u = c as u32;
    (0x9 <= u && u <= 0xD) || u == 0x20 || u == 0x85 || u == 0xA0 || u == 0x1680 || (0x2000 <= u
        && u <= 0x200A) || u == 0x2028 || u == 0x2029 || u == 0x202F || u == 0x205F || u == 0x3000
}

/// The characters of `text`.
fn chars_of(text: &str) -> (chars: Vec<char>)
    ensures
        chars@ == text@,
{
    let mut chars: Vec<char> = Vec::new();
    for c in it: text.chars()
        invariant
            it.seq() == text@,
            chars@ == text@.take(it.index()),
    {
        let ghost i = it.index();
        chars.push(c);
        assert(chars@ =~= text@.take(i + 1));
    }
    assert(chars@ =~= text@);
    chars
}

/// Says whether a reply agrees: `y`, `yes` or `rip`, in any case and with any
/// white space around it. `None` stands for a reply that could not be read.
pub fn agrees(reply: Option<&str>) -> (yes: bool)
    ensures
        yes == agreed(
            match reply {
                Some(text) => Some(text@),
                None => None,
            },
        ),
{
    let text = match reply {
        Some(text) => text,
        None => {
            return false;
        },
    };
    let chars = chars_of(text);
    let mut start: usize = 0;
    assert(chars@.skip(0) =~= chars@);
    while start < chars.len() && is_white_space(chars[start])
        invariant
            start <= chars.len(),
            trim_start(chars@) == trim_start(chars@.skip(start as int)),
        decreases chars.len() - start,
    {
        assert(chars@.skip(start as int).skip(1) =~= chars@.skip(start + 1));
        start += 1;
    }
    let ghost rest = chars@.skip(start as int);
    assert(trim_start(chars@) == rest);
    let mut end: usize = chars.len();
    assert(rest.take(rest.len() as int) =~= rest);
    while start < end && is_white_space(chars[end - 1])
        invariant
            start <= end <= chars.len(),
            rest == chars@.skip(start as int),
            trim_end(rest) == trim_end(rest.take(end - start)),
        decreases end,
    {
        assert(rest.take(end - start).drop_last() =~= rest.take(end - start - 1));
        assert(rest.take(end - start).last() == chars@[end - 1]);
        end -= 1;
    }
    let ghost core = rest.take(end - start);
    let ghost word = answer_word(text@);
    proof {
        reveal_strlit("y");
        reveal_strlit("yes");
        reveal_strlit("rip");
        assert(core.len() > 0 ==> core.last() == chars@[end - 1]);
        assert(trim_end(rest) == core);
        assert(word.len() == end - start);
        assert forall|i: int| 0 <= i < word.len() implies #[trigger] word[i] == lower(
            chars@[start + i],
        ) by {}
    }
    if end - start == 1 {
        let a = chars[start];
        let yes = a == 'y' || a == 'Y';
        proof {
            assert(word[0] == lower(a));
            assert(word == "y"@ <==> word[0] == 'y') by {
                if word[0] == 'y' {
                    assert(word =~= "y"@);
                }
            }
        }
        yes
    } else if end - start == 3 {
        let a = chars[start];
        let b = chars[start + 1];
        let c = chars[start + 2];
        let yes = (a == 'y' || a == 'Y') && (b == 'e' || b == 'E') && (c == 's' || c == 'S');
        let rip = (a == 'r' || a == 'R') && (b == 'i' || b == 'I') && (c == 'p' || c == 'P');
        proof {
            assert(word[0] == lower(a) && word[1] == lower(b) && word[2] == lower(c));
            assert(word == "yes"@ <==> (word[0] == 'y' && word[1] == 'e' && word[2] == 's')) by {
                if word[0] == 'y' && word[1] == 'e' && word[2] == 's' {
                    assert(word =~= "yes"@);
                }
            }
            assert(word == "rip"@ <==> (word[0] == 'r' && word[1] == 'i' && word[2] == 'p')) by {
                if word[0] == 'r' && word[1] == 'i' && word[2] == 'p' {
                    assert(word =~= "rip"@);
                }
            }
        }
        yes || rip
    } else {
        false
    }
}

/// An empty reply and a reply of white space alone abort.
pub proof fn law_silence_aborts(reply: Seq<char>)
    requires
        forall|i: int| 0 <= i < reply.len() ==> white_space(#[trigger] reply[i]),
    ensures
        !agreed(Some(reply)),
        !agreed(None),
    decreases reply.len(),
{
    reveal_strlit("y");
    reveal_strlit("yes");
    reveal_strlit("rip");
    if reply.len() > 0 {
        law_silence_aborts(reply.skip(1));
        assert(answer_word(reply) == answer_word(reply.skip(1)));
    } else {
        assert(answer_word(reply).len() == 0);
    }
}

/// The characters that count as white space, one by one.
pub proof fn law_white_space(c: char)
    ensures
        white_space(c) <==> {
            ||| c == ' '
            ||| '\t' <= c <= '\r'
            ||| c == '\u{85}'
            ||| c == '\u{A0}'
            ||| c == '\u{1680}'
            ||| '\u{2000}' <= c <= '\u{200A}'
            ||| c == '\u{2028}'
            ||| c == '\u{2029}'
            ||| c == '\u{202F}'
            ||| c == '\u{205F}'
            ||| c == '\u{3000}'
        },
{
}

/// There is nothing but white space in `reply` before index `a` and from index
/// `b` on.
pub open spec fn blank_around(reply: Seq<char>, a: int, b: int) -> bool {
    &&& 0 <= a <= b <= reply.len()
    &&& forall|i: int| 0 <= i < a ==> white_space(#[trigger] reply[i])
    &&& forall|i: int| b <= i < reply.len() ==> white_space(#[trigger] reply[i])
}

/// A reply agrees if and only if, apart from the white space around them, its
/// characters are a Y, the letters Y, E and S, or the letters R, I and P, each
/// large or small.
pub proof fn law_three_words_agree(reply: Seq<char>)
    ensures
        agreed(Some(reply)) <==> exists|a: int, b: int| #[trigger]
            blank_around(reply, a, b) && {
                ||| b == a + 1 && (reply[a] == 'y' || reply[a] == 'Y')
                ||| b == a + 3 && (reply[a] == 'y' || reply[a] == 'Y') && (reply[a + 1] == 'e'
                    || reply[a + 1] == 'E') && (reply[a + 2] == 's' || reply[a + 2] == 'S')
                ||| b == a + 3 && (reply[a] == 'r' || reply[a] == 'R') && (reply[a + 1] == 'i'
                    || reply[a + 1] == 'I') && (reply[a + 2] == 'p' || reply[a + 2] == 'P')
            },
        !agreed(None),
{
    let (a, b) = lemma_trim_bounds(reply);
    lemma_letters_of_word(reply, a, b);
    assert forall|x: int, y: int| #[trigger]
        blank_around(reply, x, y) && x < y && !white_space(reply[x]) && !white_space(
            reply[y - 1],
        ) implies x == a && y == b by {
        if x < a {
            assert(white_space(reply[x]));
        }
        if a < x {
            assert(white_space(reply[a]));
        }
        if b < y {
            assert(white_space(reply[y - 1]));
        }
        if y < b {
            assert(white_space(reply[b - 1]));
        }
    }
}

/// A reply of any other length than those of the three words aborts, whatever
/// it says.
pub proof fn law_other_lengths_abort(reply: Seq<char>, a: int, b: int)
    requires
        blank_around(reply, a, b),
        a < b,
        !white_space(reply[a]),
        !white_space(reply[b - 1]),
        b - a != 1,
        b - a != 3,
    ensures
        !agreed(Some(reply)),
{
    lemma_trim_start(reply, a);
    lemma_trim_end(reply.skip(a), b - a);
    reveal_strlit("y");
    reveal_strlit("yes");
    reveal_strlit("rip");
    assert(answer_word(reply).len() == b - a);
}

/// White space at the start is taken off.
proof fn lemma_trim_start(text: Seq<char>, a: int)
    requires
        0 <= a <= text.len(),
        forall|i: int| 0 <= i < a ==> white_space(#[trigger] text[i]),
        a == text.len() || !white_space(text[a]),
    ensures
        trim_start(text) == text.skip(a),
    decreases a,
{
    if a > 0 {
        assert(white_space(text[0]));
        lemma_trim_start(text.skip(1), a - 1);
        assert(text.skip(1).skip(a - 1) =~= text.skip(a));
    } else {
        assert(text.skip(0) =~= text);
    }
}

/// White space at the end is taken off.
proof fn lemma_trim_end(text: Seq<char>, b: int)
    requires
        0 <= b <= text.len(),
        forall|i: int| b <= i < text.len() ==> white_space(#[trigger] text[i]),
        b == 0 || !white_space(text[b - 1]),
    ensures
        trim_end(text) == text.take(b),
    decreases text.len() - b,
{
    if b < text.len() {
        assert(white_space(text.last()));
        lemma_trim_end(text.drop_last(), b);
        assert(text.drop_last().take(b) =~= text.take(b));
    } else {
        assert(text.take(b) =~= text);
    }
}

/// Where the white space at the start ends.
proof fn lemma_first_letter(text: Seq<char>) -> (a: int)
    ensures
        0 <= a <= text.len(),
        forall|i: int| 0 <= i < a ==> white_space(#[trigger] text[i]),
        a == text.len() || !white_space(text[a]),
    decreases text.len(),
{
    if text.len() == 0 || !white_space(text[0]) {
        0
    } else {
        let rest = lemma_first_letter(text.skip(1));
        assert forall|i: int| 0 <= i < rest + 1 implies white_space(#[trigger] text[i]) by {
            if i > 0 {
                assert(text.skip(1)[i - 1] == text[i]);
            }
        }
        rest + 1
    }
}

/// Where the white space at the end starts.
proof fn lemma_last_letter(text: Seq<char>) -> (b: int)
    ensures
        0 <= b <= text.len(),
        forall|i: int| b <= i < text.len() ==> white_space(#[trigger] text[i]),
        b == 0 || !white_space(text[b - 1]),
    decreases text.len(),
{
    if text.len() == 0 || !white_space(text.last()) {
        text.len() as int
    } else {
        let b = lemma_last_letter(text.drop_last());
        assert forall|i: int| b <= i < text.len() implies white_space(#[trigger] text[i]) by {
            if i < text.len() - 1 {
                assert(text.drop_last()[i] == text[i]);
            }
        }
        b
    }
}

/// What an answer is judged by is a part of the reply, with white space around
/// it and none at its ends.
proof fn lemma_trim_bounds(reply: Seq<char>) -> (bounds: (int, int))
    ensures
        blank_around(reply, bounds.0, bounds.1),
        trim_end(trim_start(reply)) == reply.subrange(bounds.0, bounds.1),
        bounds.0 < bounds.1 ==> !white_space(reply[bounds.0]) && !white_space(
            reply[bounds.1 - 1],
        ),
{
    let a = lemma_first_letter(reply);
    lemma_trim_start(reply, a);
    let rest = reply.skip(a);
    let b = lemma_last_letter(rest);
    lemma_trim_end(rest, b);
    assert(rest.take(b) =~= reply.subrange(a, a + b));
    assert forall|i: int| a + b <= i < reply.len() implies white_space(#[trigger] reply[i]) by {
        assert(rest[i - a] == reply[i]);
    }
    (a, a + b)
}

/// The word of a reply is a yes by its letters.
proof fn lemma_letters_of_word(reply: Seq<char>, a: int, b: int)
    requires
        0 <= a <= b <= reply.len(),
        trim_end(trim_start(reply)) == reply.subrange(a, b),
    ensures
        agreed(Some(reply)) <==> {
            ||| b == a + 1 && (reply[a] == 'y' || reply[a] == 'Y')
            ||| b == a + 3 && (reply[a] == 'y' || reply[a] == 'Y') && (reply[a + 1] == 'e'
                || reply[a + 1] == 'E') && (reply[a + 2] == 's' || reply[a + 2] == 'S')
            ||| b == a + 3 && (reply[a] == 'r' || reply[a] == 'R') && (reply[a + 1] == 'i'
                || reply[a + 1] == 'I') && (reply[a + 2] == 'p' || reply[a + 2] == 'P')
        },
{
    reveal_strlit("y");
    reveal_strlit("yes");
    reveal_strlit("rip");
    let word = answer_word(reply);
    assert(word.len() == b - a);
    assert forall|i: int| 0 <= i < word.len() implies #[trigger] word[i] == lower(
        reply[a + i],
    ) by {}
    if b - a == 1 {
        assert(word[0] == lower(reply[a]));
        if word[0] == 'y' {
            assert(word =~= "y"@);
        }
    }
    if b - a == 3 {
        assert(word[0] == lower(reply[a]));
        assert(word[1] == lower(reply[a + 1]));
        assert(word[2] == lower(reply[a + 2]));
        if word[0] == 'y' && word[1] == 'e' && word[2] == 's' {
            assert(word =~= "yes"@);
        }
        if word[0] == 'r' && word[1] == 'i' && word[2] == 'p' {
            assert(word =~= "rip"@);
        }
    }
}

} // verus!

//! What the warnings say, and what they do not, whatever their colours.
use vstd::prelude::*;
#[allow(unused_imports)]
use crate::paint::{is_paint, reset, restyled, style, styled};
#[allow(unused_imports)]
use crate::text::decimal_text;
#[allow(unused_imports)]
use crate::ui::{
    agreed, answer_word, is_rip_warning, is_trash_warning, is_warning, line, listing, name_lines, question,
    rip_inked, rip_warning, rule_text, shown, trash_inked, trash_warning, Mode, RipInkView,
    TrashInkView, MAX_SHOWN,
};

verus! {

/// `word` stands in `text` at index `k`.
pub open spec fn says_at(text: Seq<char>, word: Seq<char>, k: int) -> bool {
    0 <= k && k + word.len() <= text.len() && text.subrange(k, k + word.len()) == word
}

/// `word` stands somewhere in `text`.
pub open spec fn says(text: Seq<char>, word: Seq<char>) -> bool {
    exists|k: int| #[trigger] says_at(text, word, k)
}

/// What is said in a text is said in a longer one.
proof fn lemma_says_within(a: Seq<char>, b: Seq<char>, c: Seq<char>, word: Seq<char>)
    requires
        says(b, word),
    ensures
        says(a + b + c, word),
{
    let k = choose|k: int| #[trigger] says_at(b, word, k);
    let text = a + b + c;
    let at = a.len() + k;
    assert(text.subrange(at, at + word.len()) =~= b.subrange(k, k + word.len()));
    assert(says_at(text, word, at));
}

/// Where the word is said in the first of two texts, it is said in both together.
proof fn lemma_says_left(a: Seq<char>, b: Seq<char>, word: Seq<char>)
    requires
        says(a, word),
    ensures
        says(a + b, word),
{
    lemma_says_within(Seq::empty(), a, b, word);
    assert(Seq::<char>::empty() + a + b =~= a + b);
}

/// Where the word is said in the second of two texts, it is said in both
/// together.
proof fn lemma_says_right(a: Seq<char>, b: Seq<char>, word: Seq<char>)
    requires
        says(b, word),
    ensures
        says(a + b, word),
{
    lemma_says_within(a, b, Seq::empty(), word);
    assert(a + b + Seq::<char>::empty() =~= a + b);
}

/// A text without codes in it is the same when it is styled again after each.
proof fn lemma_restyled_plain(text: Seq<char>, on: Seq<char>)
    requires
        forall|i: int| 0 <= i < text.len() ==> #[trigger] text[i] != '\x1B',
    ensures
        restyled(text, on) == text,
    decreases text.len(),
{
    if text.len() >= 4 {
        reveal_strlit("\x1B[0m");
        assert(text.take(4)[0] == text[0]);
        assert(text.take(4) != reset());
        lemma_restyled_plain(text.skip(1), on);
        assert(seq![text[0]] + text.skip(1) =~= text);
    }
}

/// A text without codes in it is said by its painted form.
proof fn lemma_paint_says(painted: Seq<char>, text: Seq<char>, codes: Seq<char>)
    requires
        is_paint(painted, text, codes),
        forall|i: int| 0 <= i < text.len() ==> #[trigger] text[i] != '\x1B',
    ensures
        says(painted, text),
{
    assert(text.subrange(0, text.len() as int) =~= text);
    assert(says_at(text, text, 0));
    if painted != text {
        lemma_restyled_plain(text, style(codes));
        lemma_says_within(style(codes), text, reset(), text);
    }
}

/// The word that only the warning before a move may say.
pub open spec fn promise() -> Seq<char> {
    "recoverable"@
}

/// `c` is a letter of that word.
spec fn is_letter(c: char) -> bool {
    c == 'r' || c == 'e' || c == 'c' || c == 'o' || c == 'v' || c == 'a' || c == 'b' || c == 'l'
}

/// The word, letter by letter.
proof fn lemma_promise_letters()
    ensures
        promise().len() == 11,
        promise()[2] == 'c',
        promise()[4] == 'v',
        forall|i: int| 0 <= i < 11 ==> is_letter(#[trigger] promise()[i]),
{
    reveal_strlit("recoverable");
}

/// Two texts do not run into each other: the word cannot reach from one into the
/// other.
spec fn apart(a: Seq<char>, b: Seq<char>) -> bool {
    a.len() == 0 || b.len() == 0 || !is_letter(a.last()) || !is_letter(b[0])
}

/// Two texts that are apart and do not say the word do not say it together.
proof fn lemma_quiet_join(a: Seq<char>, b: Seq<char>)
    requires
        !says(a, promise()),
        !says(b, promise()),
        apart(a, b),
    ensures
        !says(a + b, promise()),
{
    lemma_promise_letters();
    let text = a + b;
    let word = promise();
    if says(text, word) {
        let k = choose|k: int| #[trigger] says_at(text, word, k);
        let part = text.subrange(k, k + 11);
        if k + 11 <= a.len() {
            assert(a.subrange(k, k + 11) =~= part);
            assert(says_at(a, word, k));
        } else if a.len() <= k {
            assert(b.subrange(k - a.len(), k - a.len() + 11) =~= part);
            assert(says_at(b, word, k - a.len()));
        } else {
            let i = a.len() - 1 - k;
            assert(part[i] == a.last() && part[i + 1] == b[0]);
            assert(is_letter(word[i]) && is_letter(word[i + 1]));
        }
    }
}

/// A text in which no `v` comes two characters after a `c` does not say the word.
proof fn lemma_quiet_text(text: Seq<char>)
    requires
        forall|i: int|
            2 <= i < text.len() && #[trigger] text[i] == 'v' ==> text[i - 2] != 'c',
    ensures
        !says(text, promise()),
{
    lemma_promise_letters();
    let word = promise();
    if says(text, word) {
        let k = choose|k: int| #[trigger] says_at(text, word, k);
        let part = text.subrange(k, k + 11);
        assert(part[4] == text[k + 4] && part[2] == text[k + 2]);
    }
}

/// A short text does not say the word.
proof fn lemma_quiet_short(text: Seq<char>)
    requires
        text.len() < 11,
    ensures
        !says(text, promise()),
{
    lemma_promise_letters();
}

/// Up to its first code, a styled text is the text itself.
proof fn lemma_restyled_start(text: Seq<char>, on: Seq<char>, n: int)
    requires
        0 <= n <= restyled(text, on).len(),
        forall|i: int| 0 <= i < n ==> #[trigger] restyled(text, on)[i] != '\x1B',
    ensures
        n <= text.len(),
        text.take(n) == restyled(text, on).take(n),
    decreases text.len(),
{
    reveal_strlit("\x1B[0m");
    let out = restyled(text, on);
    if text.len() >= 4 && n > 0 {
        if text.take(4) == reset() {
            assert(out[0] == reset()[0]);
        } else {
            let rest = restyled(text.skip(1), on);
            assert forall|i: int| 0 <= i < n - 1 implies #[trigger] rest[i] != '\x1B' by {
                assert(out[i + 1] == rest[i]);
            }
            lemma_restyled_start(text.skip(1), on, n - 1);
            assert forall|i: int| 0 <= i < n implies text.take(n)[i] == out.take(n)[i] by {
                if i > 0 {
                    assert(text.skip(1).take(n - 1)[i - 1] == rest.take(n - 1)[i - 1]);
                }
            }
            assert(text.take(n) =~= out.take(n));
        }
    } else if n == 0 {
        assert(text.take(0) =~= out.take(0));
    }
}

/// Codes inside a text do not make it say the word.
proof fn lemma_quiet_restyled(text: Seq<char>, on: Seq<char>)
    requires
        !says(text, promise()),
        0 < on.len() < 11,
        !is_letter(on.last()),
    ensures
        !says(restyled(text, on), promise()),
    decreases text.len(),
{
    reveal_strlit("\x1B[0m");
    lemma_promise_letters();
    let word = promise();
    if text.len() >= 4 {
        if text.take(4) == reset() {
            assert(!says(text.skip(4), word)) by {
                if says(text.skip(4), word) {
                    lemma_says_right(text.take(4), text.skip(4), word);
                    assert(text.take(4) + text.skip(4) =~= text);
                }
            }
            lemma_quiet_restyled(text.skip(4), on);
            lemma_quiet_short(reset());
            lemma_quiet_short(on);
            lemma_quiet_join(reset(), on);
            lemma_quiet_join(reset() + on, restyled(text.skip(4), on));
        } else {
            let rest = restyled(text.skip(1), on);
            let out = restyled(text, on);
            assert(!says(text.skip(1), word)) by {
                if says(text.skip(1), word) {
                    lemma_says_right(text.take(1), text.skip(1), word);
                    assert(text.take(1) + text.skip(1) =~= text);
                }
            }
            lemma_quiet_restyled(text.skip(1), on);
            if says(out, word) {
                let k = choose|k: int| #[trigger] says_at(out, word, k);
                let part = out.subrange(k, k + 11);
                if k == 0 {
                    assert forall|i: int| 0 <= i < 11 implies #[trigger] out[i] != '\x1B' by {
                        assert(part[i] == out[i]);
                        assert(is_letter(word[i]));
                    }
                    lemma_restyled_start(text, on, 11);
                    assert(text.subrange(0, 11) =~= text.take(11));
                    assert(out.take(11) =~= part);
                    assert(says_at(text, word, 0));
                } else {
                    assert(rest.subrange(k - 1, k - 1 + 11) =~= part);
                    assert(says_at(rest, word, k - 1));
                }
            }
        }
    }
}

/// Paint does not make a text say the word.
proof fn lemma_quiet_paint(painted: Seq<char>, text: Seq<char>, codes: Seq<char>)
    requires
        is_paint(painted, text, codes),
        !says(text, promise()),
        codes.len() <= 4,
    ensures
        !says(painted, promise()),
{
    if painted != text {
        reveal_strlit("\x1B[");
        reveal_strlit("m");
        reveal_strlit("\x1B[0m");
        let on = style(codes);
        assert(on.last() == 'm');
        lemma_quiet_restyled(text, on);
        lemma_quiet_short(on);
        lemma_quiet_short(reset());
        lemma_quiet_join(on, restyled(text, on));
        lemma_quiet_join(on + restyled(text, on), reset());
    }
}

/// A line does not say the word if its text does not.
proof fn lemma_quiet_line(text: Seq<char>)
    requires
        !says(text, promise()),
    ensures
        !says(line(text), promise()),
        line(text).len() > 0,
        line(text).last() == '\n',
{
    reveal_strlit("\n");
    lemma_quiet_short("\n"@);
    lemma_quiet_join(text, "\n"@);
}

/// Numbers do not say the word.
proof fn lemma_quiet_decimal(n: nat)
    ensures
        !says(decimal_text(n), promise()),
        forall|i: int|
            0 <= i < decimal_text(n).len() ==> '0' <= #[trigger] decimal_text(n)[i] <= '9',
    decreases n,
{
    if n >= 10 {
        lemma_quiet_decimal(n / 10);
    }
    lemma_quiet_text(decimal_text(n));
}

/// The names that are listed do not say the word if the paths do not.
proof fn lemma_quiet_names(bullet: Seq<char>, names: Seq<Seq<char>>)
    requires
        !says(bullet, promise()),
        forall|i: int| 0 <= i < names.len() ==> !says(#[trigger] names[i], promise()),
    ensures
        !says(name_lines(bullet, names), promise()),
    decreases names.len(),
{
    if names.len() == 0 {
        lemma_quiet_short(name_lines(bullet, names));
    } else {
        reveal_strlit("    ");
        reveal_strlit(" ");
        lemma_quiet_short("    "@);
        lemma_quiet_short(" "@);
        let init = names.drop_last();
        lemma_quiet_names(bullet, init);
        let lead = "    "@ + bullet;
        lemma_quiet_join("    "@, bullet);
        lemma_quiet_join(lead, " "@);
        assert((lead + " "@).last() == ' ');
        lemma_quiet_join(lead + " "@, names.last());
        let text = lead + " "@ + names.last();
        lemma_quiet_line(text);
        assert(line(text)[0] == ' ');
        lemma_quiet_join(name_lines(bullet, init), line(text));
    }
}

/// The list of paths does not say the word if the names in it do not.
proof fn lemma_quiet_listing(bullet: Seq<char>, names: Seq<Seq<char>>, total: nat)
    requires
        !says(bullet, promise()),
        forall|i: int| 0 <= i < names.len() ==> !says(#[trigger] names[i], promise()),
    ensures
        !says(listing(bullet, names, total), promise()),
{
    lemma_quiet_names(bullet, names);
    if total > MAX_SHOWN {
        reveal_strlit("    ");
        reveal_strlit(" … and ");
        reveal_strlit(" more");
        lemma_quiet_short("    "@);
        lemma_quiet_short(" … and "@);
        lemma_quiet_short(" more"@);
        let more = decimal_text((total - MAX_SHOWN) as nat);
        lemma_quiet_decimal((total - MAX_SHOWN) as nat);
        let a = "    "@ + bullet;
        lemma_quiet_join("    "@, bullet);
        lemma_quiet_join(a, " … and "@);
        let b = a + " … and "@;
        assert(b.last() == ' ');
        lemma_quiet_join(b, more);
        lemma_quiet_join(b + more, " more"@);
        let text = b + more + " more"@;
        lemma_quiet_line(text);
        assert(line(text)[0] == ' ');
        lemma_quiet_join(name_lines(bullet, names), line(text));
    }
}

/// Adding a line to a text adds only what the line says.
proof fn lemma_quiet_next(before: Seq<char>, text: Seq<char>)
    requires
        !says(before, promise()),
        before.len() == 0 || before.last() == '\n',
        !says(text, promise()),
    ensures
        !says(before + line(text), promise()),
        (before + line(text)).last() == '\n',
{
    lemma_quiet_line(text);
    lemma_quiet_join(before, line(text));
    assert((before + line(text)).last() == line(text).last());
}

/// A line of three parts does not say the word if they do not and the outer two
/// end and start with something else than its letters.
proof fn lemma_quiet_three(a: Seq<char>, b: Seq<char>, c: Seq<char>)
    requires
        !says(a, promise()),
        !says(b, promise()),
        !says(c, promise()),
        a.len() > 0,
        !is_letter(a.last()),
        c.len() > 0,
        !is_letter(c[0]),
    ensures
        !says(a + b + c, promise()),
{
    lemma_quiet_join(a, b);
    lemma_quiet_join(a + b, c);
}

/// The rule does not say the word.
proof fn lemma_quiet_rule()
    ensures
        !says(rule_text(), promise()),
{
    lemma_quiet_text(rule_text());
}

/// The parts of the warning before a deletion for good do not say the word if no
/// path that is shown does.
proof fn lemma_quiet_rip_ink(ink: RipInkView, paths: Seq<Seq<char>>)
    requires
        rip_inked(ink, paths),
        forall|i: int| 0 <= i < shown(paths.len()) ==> !says(#[trigger] paths[i], promise()),
    ensures
        !says(ink.rule, promise()),
        !says(ink.title, promise()),
        !says(ink.permanently, promise()),
        !says(ink.count, promise()),
        !says(ink.bullet, promise()),
        forall|i: int| 0 <= i < ink.names.len() ==> !says(#[trigger] ink.names[i], promise()),
        !says(ink.cross, promise()),
        !says(ink.undone, promise()),
        !says(ink.key, promise()),
        !says(ink.arrow, promise()),
{
    reveal_strlit("91");
    reveal_strlit("1;91");
    reveal_strlit("1");
    reveal_strlit("1;97");
    reveal_strlit("1;96");
    lemma_quiet_rule();
    lemma_quiet_paint(ink.rule, rule_text(), "91"@);
    let title = "  ⚠  RIP  —  PERMANENT DELETION  ⚠"@;
    assert(!says(title, promise())) by {
        reveal_strlit("  ⚠  RIP  —  PERMANENT DELETION  ⚠");
        lemma_quiet_text(title);
    }
    lemma_quiet_paint(ink.title, title, "1;91"@);
    assert(!says("PERMANENTLY"@, promise())) by {
        reveal_strlit("PERMANENTLY");
        lemma_quiet_text("PERMANENTLY"@);
    }
    lemma_quiet_paint(ink.permanently, "PERMANENTLY"@, "1;91"@);
    lemma_quiet_decimal(paths.len());
    lemma_quiet_paint(ink.count, decimal_text(paths.len()), "1"@);
    assert(!says("•"@, promise()) && !says("✗"@, promise()) && !says("y"@, promise()) && !says(
        "▸"@,
        promise(),
    )) by {
        reveal_strlit("•");
        reveal_strlit("✗");
        reveal_strlit("y");
        reveal_strlit("▸");
        lemma_quiet_short("•"@);
        lemma_quiet_short("✗"@);
        lemma_quiet_short("y"@);
        lemma_quiet_short("▸"@);
    }
    lemma_quiet_paint(ink.bullet, "•"@, "91"@);
    lemma_quiet_paint(ink.cross, "✗"@, "91"@);
    lemma_quiet_paint(ink.key, "y"@, "1;91"@);
    lemma_quiet_paint(ink.arrow, "▸"@, "1;96"@);
    assert(!says("this cannot be undone"@, promise())) by {
        reveal_strlit("this cannot be undone");
        lemma_quiet_text("this cannot be undone"@);
    }
    lemma_quiet_paint(ink.undone, "this cannot be undone"@, "1;97"@);
    assert forall|i: int| 0 <= i < ink.names.len() implies !says(
        #[trigger] ink.names[i],
        promise(),
    ) by {
        assert(is_paint(ink.names[i], paths[i], "1"@));
        lemma_quiet_paint(ink.names[i], paths[i], "1"@);
    }
}

/// The line that says how many paths are deleted does not say the word.
proof fn lemma_quiet_about(ink: RipInkView)
    requires
        !says(ink.permanently, promise()),
        !says(ink.count, promise()),
    ensures
        !says(
            "  About to "@ + ink.permanently + " delete "@ + ink.count + " path(s):"@,
            promise(),
        ),
{
    reveal_strlit("  About to ");
    reveal_strlit(" delete ");
    reveal_strlit(" path(s):");
    lemma_quiet_text("  About to "@);
    lemma_quiet_short(" delete "@);
    lemma_quiet_short(" path(s):"@);
    lemma_quiet_three("  About to "@, ink.permanently, " delete "@);
    let a = "  About to "@ + ink.permanently + " delete "@;
    assert(a.last() == ' ');
    lemma_quiet_three(a, ink.count, " path(s):"@);
}

/// The lines that say what a rip is do not say the word.
proof fn lemma_quiet_meaning(ink: RipInkView)
    requires
        !says(ink.cross, promise()),
        !says(ink.undone, promise()),
    ensures
        !says("    "@ + ink.cross + "  No Recycle Bin — "@ + ink.undone + "."@, promise()),
        !says(
            "    "@ + ink.cross + "  Read-only files are deleted anyway (IGNORE_READONLY)."@,
            promise(),
        ),
        !says(
            "    "@ + ink.cross + "  Files still in use are force-removed (POSIX_SEMANTICS)."@,
            promise(),
        ),
{
    reveal_strlit("    ");
    lemma_quiet_short("    "@);
    let bin = "  No Recycle Bin — "@;
    assert(!says(bin, promise()) && bin.len() > 0 && bin[0] == ' ' && bin.last() == ' ') by {
        reveal_strlit("  No Recycle Bin — ");
        lemma_quiet_text(bin);
    }
    reveal_strlit(".");
    lemma_quiet_short("."@);
    lemma_quiet_three("    "@, ink.cross, bin);
    let a = "    "@ + ink.cross + bin;
    assert(a.last() == ' ');
    lemma_quiet_three(a, ink.undone, "."@);
    let readonly = "  Read-only files are deleted anyway (IGNORE_READONLY)."@;
    assert(!says(readonly, promise()) && readonly.len() > 0 && readonly[0] == ' ') by {
        reveal_strlit("  Read-only files are deleted anyway (IGNORE_READONLY).");
        lemma_quiet_text(readonly);
    }
    lemma_quiet_three("    "@, ink.cross, readonly);
    let in_use = "  Files still in use are force-removed (POSIX_SEMANTICS)."@;
    assert(!says(in_use, promise()) && in_use.len() > 0 && in_use[0] == ' ') by {
        reveal_strlit("  Files still in use are force-removed (POSIX_SEMANTICS).");
        lemma_quiet_text(in_use);
    }
    lemma_quiet_three("    "@, ink.cross, in_use);
}

/// The question before a deletion for good does not say the word.
proof fn lemma_quiet_question(ink: RipInkView)
    requires
        !says(ink.key, promise()),
        !says(ink.arrow, promise()),
    ensures
        !says(
            question("Type "@ + ink.key + " to rip it out — anything else aborts"@, ink.arrow),
            promise(),
        ),
{
    reveal_strlit("Type ");
    reveal_strlit("  ");
    reveal_strlit(" ");
    lemma_quiet_short("Type "@);
    lemma_quiet_short("  "@);
    lemma_quiet_short(" "@);
    let tail = " to rip it out — anything else aborts"@;
    assert(!says(tail, promise()) && tail.len() > 0 && tail[0] == ' ') by {
        reveal_strlit(" to rip it out — anything else aborts");
        lemma_quiet_text(tail);
    }
    lemma_quiet_three("Type "@, ink.key, tail);
    let message = "Type "@ + ink.key + tail;
    lemma_quiet_three("  "@, message, " "@);
    let a = "  "@ + message + " "@;
    assert(a.last() == ' ');
    lemma_quiet_three(a, ink.arrow, " "@);
}

/// The warning before a deletion for good does not say the word if its parts do
/// not.
proof fn lemma_quiet_rip_warning(ink: RipInkView, total: nat)
    requires
        !says(ink.rule, promise()),
        !says(ink.title, promise()),
        !says(ink.permanently, promise()),
        !says(ink.count, promise()),
        !says(ink.bullet, promise()),
        forall|i: int| 0 <= i < ink.names.len() ==> !says(#[trigger] ink.names[i], promise()),
        !says(ink.cross, promise()),
        !says(ink.undone, promise()),
        !says(ink.key, promise()),
        !says(ink.arrow, promise()),
    ensures
        !says(rip_warning(ink, total), promise()),
{
    reveal_strlit("");
    lemma_quiet_short(""@);
    lemma_quiet_about(ink);
    lemma_quiet_meaning(ink);
    lemma_quiet_question(ink);
    lemma_quiet_listing(ink.bullet, ink.names, total);
    let means = "  This is what \"rip\" means:"@;
    assert(!says(means, promise())) by {
        reveal_strlit("  This is what \"rip\" means:");
        lemma_quiet_text(means);
    }
    let about = "  About to "@ + ink.permanently + " delete "@ + ink.count + " path(s):"@;
    let bin = "    "@ + ink.cross + "  No Recycle Bin — "@ + ink.undone + "."@;
    let readonly = "    "@ + ink.cross
        + "  Read-only files are deleted anyway (IGNORE_READONLY)."@;
    let in_use = "    "@ + ink.cross
        + "  Files still in use are force-removed (POSIX_SEMANTICS)."@;
    let list = listing(ink.bullet, ink.names, total);

    let t0 = line(""@);
    lemma_quiet_line(""@);
    let t1 = t0 + line(ink.rule);
    lemma_quiet_next(t0, ink.rule);
    let t2 = t1 + line(ink.title);
    lemma_quiet_next(t1, ink.title);
    let t3 = t2 + line(ink.rule);
    lemma_quiet_next(t2, ink.rule);
    let t4 = t3 + line(""@);
    lemma_quiet_next(t3, ""@);
    let t5 = t4 + line(about);
    lemma_quiet_next(t4, about);
    let t6 = t5 + list;
    lemma_quiet_join(t5, list);
    let t7 = t6 + line(""@);
    lemma_quiet_line(""@);
    assert(line(""@)[0] == '\n') by {
        reveal_strlit("\n");
    }
    lemma_quiet_join(t6, line(""@));
    assert(t7.last() == '\n');
    let t8 = t7 + line(means);
    lemma_quiet_next(t7, means);
    let t9 = t8 + line(bin);
    lemma_quiet_next(t8, bin);
    let t10 = t9 + line(readonly);
    lemma_quiet_next(t9, readonly);
    let t11 = t10 + line(in_use);
    lemma_quiet_next(t10, in_use);
    let t12 = t11 + line(""@);
    lemma_quiet_next(t11, ""@);
    let ask = question("Type "@ + ink.key + " to rip it out — anything else aborts"@, ink.arrow);
    lemma_quiet_join(t12, ask);
    assert(rip_warning(ink, total) == t12 + ask);
}

/// A deletion for good is never called recoverable: the warning before it says
/// that word only where a path that it shows does.
pub proof fn law_a_rip_is_not_called_recoverable(text: Seq<char>, paths: Seq<Seq<char>>)
    requires
        is_rip_warning(text, paths),
        says(text, promise()),
    ensures
        exists|i: int| 0 <= i < 12 && i < paths.len() && says(#[trigger] paths[i], promise()),
{
    let ink = choose|ink: RipInkView| #[trigger]
        rip_inked(ink, paths) && text == rip_warning(ink, paths.len());
    if forall|i: int| 0 <= i < shown(paths.len()) ==> !says(#[trigger] paths[i], promise()) {
        lemma_quiet_rip_ink(ink, paths);
        lemma_quiet_rip_warning(ink, paths.len());
    }
}

/// A part of what a text says is said by the text.
proof fn lemma_says_part(text: Seq<char>, whole: Seq<char>, part: Seq<char>, at: int)
    requires
        says(text, whole),
        0 <= at,
        at + part.len() <= whole.len(),
        whole.subrange(at, at + part.len()) == part,
    ensures
        says(text, part),
{
    let k = choose|k: int| #[trigger] says_at(text, whole, k);
    assert(text.subrange(k + at, k + at + part.len()) =~= text.subrange(
        k,
        k + whole.len(),
    ).subrange(at, at + part.len()));
    assert(says_at(text, part, k + at));
}

/// What either of two texts says, both together say.
proof fn lemma_says_either(a: Seq<char>, b: Seq<char>, word: Seq<char>)
    ensures
        says(a, word) || says(b, word) ==> says(a + b, word),
{
    if says(a, word) {
        lemma_says_left(a, b, word);
    } else if says(b, word) {
        lemma_says_right(a, b, word);
    }
}

/// The line that says how many paths are deleted for good.
spec fn rip_about(ink: RipInkView) -> Seq<char> {
    "  About to "@ + ink.permanently + " delete "@ + ink.count + " path(s):"@
}

/// The question before a deletion for good.
spec fn rip_ask(ink: RipInkView) -> Seq<char> {
    question("Type "@ + ink.key + " to rip it out — anything else aborts"@, ink.arrow)
}

/// The line that says that there is no Recycle Bin.
spec fn rip_bin(ink: RipInkView) -> Seq<char> {
    "    "@ + ink.cross + "  No Recycle Bin — "@ + ink.undone + "."@
}

/// The line that says that read-only files are not spared.
spec fn rip_readonly(ink: RipInkView) -> Seq<char> {
    "    "@ + ink.cross + "  Read-only files are deleted anyway (IGNORE_READONLY)."@
}

/// The line that says that files in use are not spared.
spec fn rip_in_use(ink: RipInkView) -> Seq<char> {
    "    "@ + ink.cross + "  Files still in use are force-removed (POSIX_SEMANTICS)."@
}

/// What a part of the warning before a deletion for good says, the warning says.
proof fn lemma_rip_part_is_said(ink: RipInkView, total: nat, word: Seq<char>)
    requires
        says(ink.title, word) || says(rip_about(ink), word) || says(
            listing(ink.bullet, ink.names, total),
            word,
        ) || says(rip_bin(ink), word) || says(rip_readonly(ink), word) || says(
            rip_in_use(ink),
            word,
        ) || says(rip_ask(ink), word),
    ensures
        says(rip_warning(ink, total), word),
{
    let means = "  This is what \"rip\" means:"@;
    let list = listing(ink.bullet, ink.names, total);
    lemma_says_either(ink.title, "\n"@, word);
    lemma_says_either(rip_about(ink), "\n"@, word);
    lemma_says_either(rip_bin(ink), "\n"@, word);
    lemma_says_either(rip_readonly(ink), "\n"@, word);
    lemma_says_either(rip_in_use(ink), "\n"@, word);

    let t1 = line(""@) + line(ink.rule);
    let t2 = t1 + line(ink.title);
    lemma_says_either(t1, line(ink.title), word);
    let t3 = t2 + line(ink.rule);
    lemma_says_either(t2, line(ink.rule), word);
    let t4 = t3 + line(""@);
    lemma_says_either(t3, line(""@), word);
    let t5 = t4 + line(rip_about(ink));
    lemma_says_either(t4, line(rip_about(ink)), word);
    let t6 = t5 + list;
    lemma_says_either(t5, list, word);
    let t7 = t6 + line(""@);
    lemma_says_either(t6, line(""@), word);
    let t8 = t7 + line(means);
    lemma_says_either(t7, line(means), word);
    let t9 = t8 + line(rip_bin(ink));
    lemma_says_either(t8, line(rip_bin(ink)), word);
    let t10 = t9 + line(rip_readonly(ink));
    lemma_says_either(t9, line(rip_readonly(ink)), word);
    let t11 = t10 + line(rip_in_use(ink));
    lemma_says_either(t10, line(rip_in_use(ink)), word);
    let t12 = t11 + line(""@);
    lemma_says_either(t11, line(""@), word);
    lemma_says_either(t12, rip_ask(ink), word);
}

/// The title over a deletion for good has no codes of its own.
proof fn lemma_rip_title_is_plain()
    ensures
        forall|i: int|
            0 <= i < "  ⚠  RIP  —  PERMANENT DELETION  ⚠"@.len() ==> #[trigger] "  ⚠  RIP  —  PERMANENT DELETION  ⚠"@[i] != '\x1B',
{
    reveal_strlit("  ⚠  RIP  —  PERMANENT DELETION  ⚠");
}

/// The title over a deletion for good holds its text, in colour or not.
proof fn lemma_rip_title(painted: Seq<char>)
    requires
        is_paint(painted, "  ⚠  RIP  —  PERMANENT DELETION  ⚠"@, "1;91"@),
    ensures
        says(painted, "  ⚠  RIP  —  PERMANENT DELETION  ⚠"@),
{
    lemma_rip_title_is_plain();
    lemma_paint_says(painted, "  ⚠  RIP  —  PERMANENT DELETION  ⚠"@, "1;91"@);
}

/// A text with the title over a deletion for good names it.
proof fn lemma_rip_title_name(text: Seq<char>)
    requires
        says(text, "  ⚠  RIP  —  PERMANENT DELETION  ⚠"@),
    ensures
        says(text, "PERMANENT DELETION"@),
{
    let title = "  ⚠  RIP  —  PERMANENT DELETION  ⚠"@;
    reveal_strlit("  ⚠  RIP  —  PERMANENT DELETION  ⚠");
    reveal_strlit("PERMANENT DELETION");
    assert(title.subrange(13, 31) =~= "PERMANENT DELETION"@);
    lemma_says_part(text, title, "PERMANENT DELETION"@, 13);
}

/// The warning before a deletion for good says so.
pub proof fn law_a_rip_says_its_name(text: Seq<char>, paths: Seq<Seq<char>>)
    requires
        is_rip_warning(text, paths),
    ensures
        says(text, "  ⚠  RIP  —  PERMANENT DELETION  ⚠"@),
        says(text, "PERMANENT DELETION"@),
{
    let ink = choose|ink: RipInkView| #[trigger]
        rip_inked(ink, paths) && text == rip_warning(ink, paths.len());
    let title = "  ⚠  RIP  —  PERMANENT DELETION  ⚠"@;
    lemma_rip_title(ink.title);
    lemma_rip_part_is_said(ink, paths.len(), title);
    lemma_rip_title_name(text);
}

/// The line that says how many paths are moved.
spec fn trash_about(ink: TrashInkView) -> Seq<char> {
    "  About to move "@ + ink.count + " path(s) to the Recycle Bin ("@ + ink.recoverable + "):"@
}

/// The question before a move to the Recycle Bin.
spec fn trash_ask(ink: TrashInkView) -> Seq<char> {
    question("Type "@ + ink.key + " to continue — anything else aborts"@, ink.arrow)
}

/// What a part of the warning before a move to the Recycle Bin says, the warning
/// says.
proof fn lemma_trash_part_is_said(ink: TrashInkView, total: nat, word: Seq<char>)
    requires
        says(ink.title, word) || says(trash_about(ink), word) || says(
            listing(ink.bullet, ink.names, total),
            word,
        ) || says(trash_ask(ink), word),
    ensures
        says(trash_warning(ink, total), word),
{
    let list = listing(ink.bullet, ink.names, total);
    lemma_says_either(ink.title, "\n"@, word);
    lemma_says_either(trash_about(ink), "\n"@, word);

    let t1 = line(""@) + line(ink.rule);
    let t2 = t1 + line(ink.title);
    lemma_says_either(t1, line(ink.title), word);
    let t3 = t2 + line(ink.rule);
    lemma_says_either(t2, line(ink.rule), word);
    let t4 = t3 + line(""@);
    lemma_says_either(t3, line(""@), word);
    let t5 = t4 + line(trash_about(ink));
    lemma_says_either(t4, line(trash_about(ink)), word);
    let t6 = t5 + list;
    lemma_says_either(t5, list, word);
    let t7 = t6 + line(""@);
    lemma_says_either(t6, line(""@), word);
    lemma_says_either(t7, trash_ask(ink), word);
}

/// The title over a move to the Recycle Bin has no codes of its own.
proof fn lemma_trash_title_is_plain()
    ensures
        forall|i: int|
            0 <= i < "  ♻  RIP  —  MOVE TO RECYCLE BIN"@.len() ==> #[trigger] "  ♻  RIP  —  MOVE TO RECYCLE BIN"@[i] != '\x1B',
{
    reveal_strlit("  ♻  RIP  —  MOVE TO RECYCLE BIN");
}

/// The title over a move to the Recycle Bin holds its text, in colour or not.
proof fn lemma_trash_title(painted: Seq<char>)
    requires
        is_paint(painted, "  ♻  RIP  —  MOVE TO RECYCLE BIN"@, "1;33"@),
    ensures
        says(painted, "  ♻  RIP  —  MOVE TO RECYCLE BIN"@),
{
    lemma_trash_title_is_plain();
    lemma_paint_says(painted, "  ♻  RIP  —  MOVE TO RECYCLE BIN"@, "1;33"@);
}

/// A text with the title over a move to the Recycle Bin names it.
proof fn lemma_trash_title_name(text: Seq<char>)
    requires
        says(text, "  ♻  RIP  —  MOVE TO RECYCLE BIN"@),
    ensures
        says(text, "MOVE TO RECYCLE BIN"@),
{
    let title = "  ♻  RIP  —  MOVE TO RECYCLE BIN"@;
    reveal_strlit("  ♻  RIP  —  MOVE TO RECYCLE BIN");
    reveal_strlit("MOVE TO RECYCLE BIN");
    assert(title.subrange(13, 32) =~= "MOVE TO RECYCLE BIN"@);
    lemma_says_part(text, title, "MOVE TO RECYCLE BIN"@, 13);
}

/// The word in brackets has no codes of its own.
proof fn lemma_promise_is_plain()
    ensures
        forall|i: int| 0 <= i < promise().len() ==> #[trigger] promise()[i] != '\x1B',
{
    reveal_strlit("recoverable");
}

/// The word in brackets is said, in colour or not.
proof fn lemma_trash_promise(painted: Seq<char>)
    requires
        is_paint(painted, promise(), "32"@),
    ensures
        says(painted, promise()),
{
    lemma_promise_is_plain();
    lemma_paint_says(painted, promise(), "32"@);
}

/// The warning before a move to the Recycle Bin says so, and that the move can
/// be undone.
pub proof fn law_a_move_says_its_name(text: Seq<char>, paths: Seq<Seq<char>>)
    requires
        is_trash_warning(text, paths),
    ensures
        says(text, "  ♻  RIP  —  MOVE TO RECYCLE BIN"@),
        says(text, "MOVE TO RECYCLE BIN"@),
        says(text, promise()),
{
    let ink = choose|ink: TrashInkView| #[trigger]
        trash_inked(ink, paths) && text == trash_warning(ink, paths.len());
    let title = "  ♻  RIP  —  MOVE TO RECYCLE BIN"@;
    lemma_trash_title(ink.title);
    lemma_trash_part_is_said(ink, paths.len(), title);
    lemma_trash_title_name(text);
    lemma_trash_promise(ink.recoverable);
    lemma_says_within(
        "  About to move "@ + ink.count + " path(s) to the Recycle Bin ("@,
        ink.recoverable,
        "):"@,
        promise(),
    );
    lemma_trash_part_is_said(ink, paths.len(), promise());
}

/// The answer rests on the reply alone: whatever was asked about, the same words
/// get the same answer, in any case and with any white space around them.
pub proof fn law_same_reply_same_answer(one: Seq<char>, other: Seq<char>)
    requires
        answer_word(one) == answer_word(other),
    ensures
        agreed(Some(one)) == agreed(Some(other)),
{
}

/// A text says itself.
proof fn lemma_says_itself(text: Seq<char>)
    ensures
        says(text, text),
{
    assert(text.subrange(0, text.len() as int) =~= text);
    assert(says_at(text, text, 0));
}

/// The line for one path.
spec fn name_line(bullet: Seq<char>, name: Seq<char>) -> Seq<char> {
    line("    "@ + bullet + " "@ + name)
}

/// A list has a line for each name, and those of two names that follow each
/// other follow each other.
proof fn lemma_list_says(bullet: Seq<char>, names: Seq<Seq<char>>, i: int)
    requires
        0 <= i < names.len(),
    ensures
        says(name_lines(bullet, names), name_line(bullet, names[i])),
        i + 1 < names.len() ==> says(
            name_lines(bullet, names),
            name_line(bullet, names[i]) + name_line(bullet, names[i + 1]),
        ),
    decreases names.len(),
{
    let init = names.drop_last();
    let before = name_lines(bullet, init);
    let last = name_line(bullet, names.last());
    assert(name_lines(bullet, names) == before + last);
    lemma_says_itself(last);
    if i == names.len() - 1 {
        lemma_says_right(before, last, last);
    } else {
        lemma_list_says(bullet, init, i);
        lemma_says_left(before, last, name_line(bullet, names[i]));
        let both = name_line(bullet, names[i]) + name_line(bullet, names[i + 1]);
        if i + 1 < names.len() - 1 {
            assert(init[i + 1] == names[i + 1]);
            lemma_says_left(before, last, both);
        } else {
            let first = name_lines(bullet, init.drop_last());
            assert(init.last() == names[i]);
            assert(before == first + name_line(bullet, names[i]));
            assert(before + last =~= first + both);
            lemma_says_itself(both);
            lemma_says_right(first, both, both);
        }
    }
}

/// A list of more paths than are shown says how many more there are.
proof fn lemma_list_says_more(bullet: Seq<char>, names: Seq<Seq<char>>, total: nat)
    requires
        total > 12,
    ensures
        says(
            listing(bullet, names, total),
            " … and "@ + decimal_text((total - 12) as nat) + " more"@ + "\n"@,
        ),
{
    let more = " … and "@ + decimal_text((total - 12) as nat) + " more"@ + "\n"@;
    let lead = "    "@ + bullet;
    let whole = line(
        "    "@ + bullet + " … and "@ + decimal_text((total - MAX_SHOWN) as nat) + " more"@,
    );
    assert(whole =~= lead + more);
    lemma_says_itself(more);
    lemma_says_right(lead, more, more);
    lemma_says_right(name_lines(bullet, names), whole, more);
}

/// What the lines of a list say, the list says.
proof fn lemma_listing_says(
    bullet: Seq<char>,
    names: Seq<Seq<char>>,
    total: nat,
    word: Seq<char>,
)
    requires
        says(name_lines(bullet, names), word),
    ensures
        says(listing(bullet, names, total), word),
{
    if total > MAX_SHOWN {
        lemma_says_left(
            name_lines(bullet, names),
            line(
                "    "@ + bullet + " … and "@ + decimal_text((total - MAX_SHOWN) as nat)
                    + " more"@,
            ),
            word,
        );
    }
}

/// `text` has a line that ends in the path, in bold or not, behind a blank.
pub open spec fn lists(text: Seq<char>, path: Seq<char>) -> bool {
    exists|name: Seq<char>| #[trigger]
        is_paint(name, path, "1"@) && says(text, " "@ + name + "\n"@)
}

/// `text` has two such lines, one after the other.
pub open spec fn lists_in_turn(text: Seq<char>, path: Seq<char>, next: Seq<char>) -> bool {
    exists|bullet: Seq<char>, one: Seq<char>, other: Seq<char>|
        #![trigger is_paint(one, path, "1"@), is_paint(other, next, "1"@), line(bullet)]
        is_paint(one, path, "1"@) && is_paint(other, next, "1"@) && says(
            text,
            (" "@ + one + "\n"@) + ("    "@ + bullet + " "@ + other + "\n"@),
        )
}

/// The line for one path ends in the path.
proof fn lemma_name_line_ends(bullet: Seq<char>, name: Seq<char>)
    ensures
        name_line(bullet, name) == ("    "@ + bullet) + (" "@ + name + "\n"@),
{
    assert(name_line(bullet, name) =~= ("    "@ + bullet) + (" "@ + name + "\n"@));
}

/// A text of three parts, either way.
proof fn lemma_three_parts(a: Seq<char>, b: Seq<char>, c: Seq<char>)
    ensures
        (a + b) + c == a + (b + c),
{
    assert((a + b) + c =~= a + (b + c));
}

/// From the lines of a list to what is said in them.
proof fn lemma_list_lists(bullet: Seq<char>, names: Seq<Seq<char>>, i: int, total: nat)
    requires
        0 <= i < names.len(),
    ensures
        says(listing(bullet, names, total), " "@ + names[i] + "\n"@),
        i + 1 < names.len() ==> says(
            listing(bullet, names, total),
            (" "@ + names[i] + "\n"@) + name_line(bullet, names[i + 1]),
        ),
{
    lemma_list_says(bullet, names, i);
    lemma_name_line_ends(bullet, names[i]);
    let lead = "    "@ + bullet;
    let one = " "@ + names[i] + "\n"@;
    let lines = name_lines(bullet, names);
    lemma_says_tail(lines, lead, one);
    lemma_listing_says(bullet, names, total, one);
    if i + 1 < names.len() {
        let next = name_line(bullet, names[i + 1]);
        lemma_three_parts(lead, one, next);
        lemma_says_tail(lines, lead, one + next);
        lemma_listing_says(bullet, names, total, one + next);
    }
}

/// Who says a text says its end.
proof fn lemma_says_tail(text: Seq<char>, lead: Seq<char>, end: Seq<char>)
    requires
        says(text, lead + end),
    ensures
        says(text, end),
{
    let whole = lead + end;
    assert(whole.subrange(lead.len() as int, lead.len() as int + end.len()) =~= end);
    lemma_says_part(text, whole, end, lead.len() as int);
}

/// A warning fits what is ahead: the one before a deletion for good says that it
/// is one, and the one before a move to the Recycle Bin that it is that.
pub proof fn law_warning_fits_its_mode(mode: Mode, text: Seq<char>, paths: Seq<Seq<char>>)
    requires
        is_warning(mode, text, paths),
    ensures
        mode == Mode::Rip ==> says(text, "PERMANENT DELETION"@),
        mode == Mode::Trash ==> says(text, "MOVE TO RECYCLE BIN"@) && says(text, promise()),
{
    match mode {
        Mode::Rip => law_a_rip_says_its_name(text, paths),
        Mode::Trash => law_a_move_says_its_name(text, paths),
    }
}

/// A warning lists the paths that it is about: the first twelve by name and in
/// order, and for more of them how many more there are.
pub proof fn law_warning_lists_its_paths(
    mode: Mode,
    text: Seq<char>,
    paths: Seq<Seq<char>>,
    i: int,
)
    requires
        is_warning(mode, text, paths),
        0 <= i < 12,
        i < paths.len(),
    ensures
        lists(text, paths[i]),
        i + 1 < 12 && i + 1 < paths.len() ==> lists_in_turn(text, paths[i], paths[i + 1]),
        paths.len() > 12 ==> says(
            text,
            " … and "@ + decimal_text((paths.len() - 12) as nat) + " more"@ + "\n"@,
        ),
{
    let total = paths.len();
    let (bullet, names) = match mode {
        Mode::Rip => {
            let ink = choose|ink: RipInkView| #[trigger]
                rip_inked(ink, paths) && text == rip_warning(ink, paths.len());
            (ink.bullet, ink.names)
        },
        Mode::Trash => {
            let ink = choose|ink: TrashInkView| #[trigger]
                trash_inked(ink, paths) && text == trash_warning(ink, paths.len());
            (ink.bullet, ink.names)
        },
    };
    let list = listing(bullet, names, total);
    assert forall|word: Seq<char>| #[trigger] says(list, word) implies says(text, word) by {
        match mode {
            Mode::Rip => {
                let ink = choose|ink: RipInkView| #[trigger]
                    rip_inked(ink, paths) && text == rip_warning(ink, paths.len());
                lemma_rip_part_is_said(ink, total, word);
            },
            Mode::Trash => {
                let ink = choose|ink: TrashInkView| #[trigger]
                    trash_inked(ink, paths) && text == trash_warning(ink, paths.len());
                lemma_trash_part_is_said(ink, total, word);
            },
        }
    }
    assert(is_paint(names[i], paths[i], "1"@));
    lemma_list_lists(bullet, names, i, total);
    if i + 1 < 12 && i + 1 < total {
        assert(is_paint(names[i + 1], paths[i + 1], "1"@));
        assert(line(bullet) == line(bullet));
    }
    if total > 12 {
        lemma_list_says_more(bullet, names, total);
    }
}

/// A warning says how many paths it is about, and how to go on: anything but a
/// yes aborts.
pub proof fn law_warning_counts_and_asks(mode: Mode, text: Seq<char>, paths: Seq<Seq<char>>)
    requires
        is_warning(mode, text, paths),
    ensures
        mode == Mode::Rip ==> says(text, " to rip it out — anything else aborts"@) && exists|
            count: Seq<char>,
        | #[trigger]
            is_paint(count, decimal_text(paths.len()), "1"@) && says(
                text,
                " delete "@ + count + " path(s):"@,
            ),
        mode == Mode::Trash ==> says(text, " to continue — anything else aborts"@) && exists|
            count: Seq<char>,
        | #[trigger]
            is_paint(count, decimal_text(paths.len()), "1"@) && says(
                text,
                "  About to move "@ + count + " path(s) to the Recycle Bin ("@,
            ),
{
    match mode {
        Mode::Rip => {
            let ink = choose|ink: RipInkView| #[trigger]
                rip_inked(ink, paths) && text == rip_warning(ink, paths.len());
            lemma_rip_counts_and_asks(ink, paths.len());
            assert(is_paint(ink.count, decimal_text(paths.len()), "1"@));
        },
        Mode::Trash => {
            let ink = choose|ink: TrashInkView| #[trigger]
                trash_inked(ink, paths) && text == trash_warning(ink, paths.len());
            lemma_trash_counts_and_asks(ink, paths.len());
            assert(is_paint(ink.count, decimal_text(paths.len()), "1"@));
        },
    }
}

/// The count and the question before a deletion for good.
proof fn lemma_rip_counts_and_asks(ink: RipInkView, total: nat)
    ensures
        says(rip_warning(ink, total), " delete "@ + ink.count + " path(s):"@),
        says(rip_warning(ink, total), " to rip it out — anything else aborts"@),
{
    let count = " delete "@ + ink.count + " path(s):"@;
    let lead = "  About to "@ + ink.permanently;
    assert(rip_about(ink) =~= lead + count);
    lemma_says_itself(count);
    lemma_says_right(lead, count, count);
    lemma_rip_part_is_said(ink, total, count);
    let ask = " to rip it out — anything else aborts"@;
    let before = "  "@ + ("Type "@ + ink.key);
    let after = " "@ + ink.arrow + " "@;
    assert(rip_ask(ink) =~= before + ask + after);
    lemma_says_itself(ask);
    lemma_says_within(before, ask, after, ask);
    lemma_rip_part_is_said(ink, total, ask);
}

/// The count and the question before a move to the Recycle Bin.
proof fn lemma_trash_counts_and_asks(ink: TrashInkView, total: nat)
    ensures
        says(
            trash_warning(ink, total),
            "  About to move "@ + ink.count + " path(s) to the Recycle Bin ("@,
        ),
        says(trash_warning(ink, total), " to continue — anything else aborts"@),
{
    let count = "  About to move "@ + ink.count + " path(s) to the Recycle Bin ("@;
    let rest = ink.recoverable + "):"@;
    assert(trash_about(ink) =~= count + rest);
    lemma_says_itself(count);
    lemma_says_left(count, rest, count);
    lemma_trash_part_is_said(ink, total, count);
    let ask = " to continue — anything else aborts"@;
    let before = "  "@ + ("Type "@ + ink.key);
    let after = " "@ + ink.arrow + " "@;
    assert(trash_ask(ink) =~= before + ask + after);
    lemma_says_itself(ask);
    lemma_says_within(before, ask, after, ask);
    lemma_trash_part_is_said(ink, total, ask);
}

/// The warning before a deletion for good spells out what that means: there is
/// no Recycle Bin, and neither read-only files nor files in use are spared.
pub proof fn law_a_rip_says_what_it_means(text: Seq<char>, paths: Seq<Seq<char>>)
    requires
        is_rip_warning(text, paths),
    ensures
        says(text, "  No Recycle Bin — "@),
        says(text, "  Read-only files are deleted anyway (IGNORE_READONLY)."@),
        says(text, "  Files still in use are force-removed (POSIX_SEMANTICS)."@),
{
    let ink = choose|ink: RipInkView| #[trigger]
        rip_inked(ink, paths) && text == rip_warning(ink, paths.len());
    let lead = "    "@ + ink.cross;
    let bin = "  No Recycle Bin — "@;
    let rest = ink.undone + "."@;
    assert(rip_bin(ink) =~= lead + bin + rest);
    lemma_says_itself(bin);
    lemma_says_within(lead, bin, rest, bin);
    lemma_rip_part_is_said(ink, paths.len(), bin);
    let readonly = "  Read-only files are deleted anyway (IGNORE_READONLY)."@;
    lemma_says_itself(readonly);
    lemma_says_right(lead, readonly, readonly);
    lemma_rip_part_is_said(ink, paths.len(), readonly);
    let in_use = "  Files still in use are force-removed (POSIX_SEMANTICS)."@;
    lemma_says_itself(in_use);
    lemma_says_right(lead, in_use, in_use);
    lemma_rip_part_is_said(ink, paths.len(), in_use);
}

/// The words for what cannot be taken back have no codes of their own.
proof fn lemma_for_good_is_plain()
    ensures
        forall|i: int|
            0 <= i < "this cannot be undone"@.len() ==> #[trigger] "this cannot be undone"@[i]
                != '\x1B',
        forall|i: int|
            0 <= i < "PERMANENTLY"@.len() ==> #[trigger] "PERMANENTLY"@[i] != '\x1B',
{
    reveal_strlit("this cannot be undone");
    reveal_strlit("PERMANENTLY");
}

/// The warning before a deletion for good says that it is for good, and that it
/// cannot be undone.
pub proof fn law_a_rip_is_for_good(text: Seq<char>, paths: Seq<Seq<char>>)
    requires
        is_rip_warning(text, paths),
    ensures
        says(text, "PERMANENTLY"@),
        says(text, "this cannot be undone"@),
{
    let ink = choose|ink: RipInkView| #[trigger]
        rip_inked(ink, paths) && text == rip_warning(ink, paths.len());
    lemma_for_good_is_plain();
    let permanently = "PERMANENTLY"@;
    lemma_paint_says(ink.permanently, permanently, "1;91"@);
    let rest = " delete "@ + ink.count + " path(s):"@;
    assert(rip_about(ink) =~= "  About to "@ + ink.permanently + rest);
    lemma_says_within("  About to "@, ink.permanently, rest, permanently);
    lemma_rip_part_is_said(ink, paths.len(), permanently);
    let undone = "this cannot be undone"@;
    lemma_paint_says(ink.undone, undone, "1;97"@);
    let lead = "    "@ + ink.cross + "  No Recycle Bin — "@;
    lemma_says_within(lead, ink.undone, "."@, undone);
    lemma_rip_part_is_said(ink, paths.len(), undone);
}

/// A warning asks for the letter that agrees.
pub proof fn law_warning_asks_for_a_y(mode: Mode, text: Seq<char>, paths: Seq<Seq<char>>)
    requires
        is_warning(mode, text, paths),
    ensures
        mode == Mode::Rip ==> exists|key: Seq<char>| #[trigger]
            is_paint(key, "y"@, "1;91"@) && says(text, "Type "@ + key + " to rip it out"@),
        mode == Mode::Trash ==> exists|key: Seq<char>| #[trigger]
            is_paint(key, "y"@, "1;33"@) && says(text, "Type "@ + key + " to continue"@),
{
    match mode {
        Mode::Rip => {
            let ink = choose|ink: RipInkView| #[trigger]
                rip_inked(ink, paths) && text == rip_warning(ink, paths.len());
            let message = "Type "@ + ink.key + " to rip it out — anything else aborts"@;
            let tail = lemma_rip_message_splits();
            let word = "Type "@ + ink.key + " to rip it out"@;
            assert(message =~= word + tail);
            lemma_says_itself(word);
            lemma_says_left(word, tail, word);
            let after = " "@ + ink.arrow + " "@;
            assert(rip_ask(ink) =~= "  "@ + message + after);
            lemma_says_within("  "@, message, after, word);
            lemma_rip_part_is_said(ink, paths.len(), word);
            assert(is_paint(ink.key, "y"@, "1;91"@));
        },
        Mode::Trash => {
            let ink = choose|ink: TrashInkView| #[trigger]
                trash_inked(ink, paths) && text == trash_warning(ink, paths.len());
            let message = "Type "@ + ink.key + " to continue — anything else aborts"@;
            let tail = lemma_trash_message_splits();
            let word = "Type "@ + ink.key + " to continue"@;
            assert(message =~= word + tail);
            lemma_says_itself(word);
            lemma_says_left(word, tail, word);
            let after = " "@ + ink.arrow + " "@;
            assert(trash_ask(ink) =~= "  "@ + message + after);
            lemma_says_within("  "@, message, after, word);
            lemma_trash_part_is_said(ink, paths.len(), word);
            assert(is_paint(ink.key, "y"@, "1;33"@));
        },
    }
}

/// The question before a deletion for good, in two parts.
proof fn lemma_rip_message_splits() -> (tail: Seq<char>)
    ensures
        " to rip it out — anything else aborts"@ == " to rip it out"@ + tail,
{
    let whole = " to rip it out — anything else aborts"@;
    reveal_strlit(" to rip it out — anything else aborts");
    reveal_strlit(" to rip it out");
    assert(whole.take(14) =~= " to rip it out"@);
    assert(whole =~= whole.take(14) + whole.skip(14));
    whole.skip(14)
}

/// The question before a move to the Recycle Bin, in two parts.
proof fn lemma_trash_message_splits() -> (tail: Seq<char>)
    ensures
        " to continue — anything else aborts"@ == " to continue"@ + tail,
{
    let whole = " to continue — anything else aborts"@;
    reveal_strlit(" to continue — anything else aborts");
    reveal_strlit(" to continue");
    assert(whole.take(12) =~= " to continue"@);
    assert(whole =~= whole.take(12) + whole.skip(12));
    whole.skip(12)
}

/// Of up to twelve paths all are shown by name, and of more the first twelve.
pub proof fn law_twelve_paths_are_shown(total: nat)
    ensures
        total <= 12 ==> shown(total) == total,
        total > 12 ==> shown(total) == 12,
{
}

} // verus!

//! Lines of a text, decimal numbers and padding.

use vstd::prelude::*;

verus! {

/// The lines of `s`: the pieces between its line feeds. A text without a
/// line feed is one line, and a trailing line feed opens an empty last line.
pub open spec fn lines(s: Seq<char>) -> Seq<Seq<char>>
    decreases s.len(),
{
    if s.len() == 0 {
        seq![Seq::<char>::empty()]
    } else {
        let before = lines(s.drop_last());
        if s.last() == '\n' {
            before.push(Seq::<char>::empty())
        } else {
            before.update(before.len() - 1, before.last().push(s.last()))
        }
    }
}

/// The number of lines of `s`.
pub open spec fn line_count(s: Seq<char>) -> nat {
    lines(s).len()
}

/// The length of the longest of `ls`, 0 where there is none.
pub open spec fn longest(ls: Seq<Seq<char>>) -> nat
    decreases ls.len(),
{
    if ls.len() == 0 {
        0
    } else {
        let rest = longest(ls.drop_last());
        if ls.last().len() > rest {
            ls.last().len()
        } else {
            rest
        }
    }
}

/// The character count of the longest line of `s`.
pub open spec fn longest_line(s: Seq<char>) -> nat {
    longest(lines(s))
}

/// A text has at least one line.
pub proof fn lemma_lines_nonempty(s: Seq<char>)
    ensures
        lines(s).len() >= 1,
    decreases s.len(),
{
    if s.len() > 0 {
        lemma_lines_nonempty(s.drop_last());
    }
}

/// No line holds a line feed, and the lines of a text, joined by line
/// feeds, are the text.
pub proof fn lemma_join_of_lines(s: Seq<char>)
    ensures
        forall|i: int, k: int|
            0 <= i < lines(s).len() && 0 <= k < lines(s)[i].len() ==> (#[trigger] lines(
                s,
            )[i][k]) != '\n',
        join_lines(lines(s)) == s,
    decreases s.len(),
{
    if s.len() == 0 {
        assert(join_lines(lines(s)) =~= s);
    } else {
        let before = lines(s.drop_last());
        lemma_join_of_lines(s.drop_last());
        lemma_lines_nonempty(s.drop_last());
        assert(s =~= s.drop_last().push(s.last()));
        if s.last() == '\n' {
            let after = before.push(Seq::<char>::empty());
            assert(after.drop_last() =~= before);
            assert(join_lines(after) =~= s);
        } else {
            let last = before.len() - 1;
            let after = before.update(last, before.last().push(s.last()));
            if before.len() == 1 {
                assert(join_lines(before) == before[0]);
                assert(join_lines(after) =~= s);
            } else {
                assert(after.drop_last() =~= before.drop_last());
                assert(join_lines(after) =~= s);
            }
        }
    }
}

/// The character count of each line of `s`, in order.
pub fn line_lengths(s: &str) -> (lens: Vec<usize>)
    ensures
        lens@.len() == lines(s@).len(),
        forall|i: int| 0 <= i < lens@.len() ==> lens@[i] == #[trigger] lines(s@)[i].len(),
{
    let total: usize = s.unicode_len();
    let mut lens: Vec<usize> = Vec::new();
    let mut current: usize = 0;
    for c in it: s.chars()
        invariant
            it.seq() == s@,
            total == s@.len(),
            lens@.len() + 1 == lines(s@.take(it.index() as int)).len(),
            forall|i: int|
                0 <= i < lens@.len() ==> lens@[i] == #[trigger] lines(
                    s@.take(it.index() as int),
                )[i].len(),
            current == lines(s@.take(it.index() as int)).last().len(),
            current <= it.index(),
    {
        let ghost k = it.index() as int;
        proof {
            assert(s@.take(k + 1).drop_last() =~= s@.take(k));
            assert(s@.take(k + 1).last() == c);
            lemma_lines_nonempty(s@.take(k));
        }
        if c == '\n' {
            lens.push(current);
            current = 0;
        } else {
            current = current + 1;
        }
    }
    proof {
        assert(s@.take(s@.len() as int) =~= s@);
    }
    lens.push(current);
    lens
}

/// The number of spaces that stand for one tab.
pub const TAB_WIDTH: usize = 2;

/// `s` with each tab replaced by `TAB_WIDTH` spaces.
pub open spec fn expand_tabs(s: Seq<char>) -> Seq<char>
    decreases s.len(),
{
    if s.len() == 0 {
        Seq::<char>::empty()
    } else if s.last() == '\t' {
        expand_tabs(s.drop_last()) + Seq::new(TAB_WIDTH as nat, |i: int| ' ')
    } else {
        expand_tabs(s.drop_last()).push(s.last())
    }
}

/// The number of line feeds that `s` ends in.
pub open spec fn trailing_line_feeds(s: Seq<char>) -> nat
    decreases s.len(),
{
    if s.len() > 0 && s.last() == '\n' {
        trailing_line_feeds(s.drop_last()) + 1
    } else {
        0
    }
}

/// `s` without the line feeds that it ends in.
pub open spec fn trim_line_feeds(s: Seq<char>) -> Seq<char> {
    s.take(s.len() - trailing_line_feeds(s))
}

/// `s` as it is shown: without the line feeds that it ends in, and with
/// spaces for its tabs.
pub open spec fn prepared(s: Seq<char>) -> Seq<char> {
    expand_tabs(trim_line_feeds(s))
}

/// A text ends in no more line feeds than it has characters.
pub proof fn lemma_trailing_line_feeds_bound(s: Seq<char>)
    ensures
        trailing_line_feeds(s) <= s.len(),
    decreases s.len(),
{
    if s.len() > 0 && s.last() == '\n' {
        lemma_trailing_line_feeds_bound(s.drop_last());
    }
}

/// Calls `String::push`. Trusted: the character is put at the end of the
/// string, and the rest of the string stays.
#[verifier::external_body]
fn push_char(out: &mut String, c: char)
    ensures
        final(out)@ == old(out)@.push(c),
{
    out.push(c);
}

/// Prepares code for display: drops the line feeds that it ends in, and
/// replaces each tab by `TAB_WIDTH` spaces.
pub fn prepare_code(code: &str) -> (out: String)
    ensures
        out@ == prepared(code@),
{
    let total: usize = code.unicode_len();
    let mut out = String::new();
    let mut pending: usize = 0;
    for c in it: code.chars()
        invariant
            it.seq() == code@,
            total == code@.len(),
            pending == trailing_line_feeds(code@.take(it.index() as int)),
            pending <= it.index(),
            out@ == prepared(code@.take(it.index() as int)),
    {
        let ghost k = it.index() as int;
        let ghost before = code@.take(k);
        let ghost kept = trim_line_feeds(before);
        proof {
            lemma_trailing_line_feeds_bound(before);
            assert(code@.take(k + 1).drop_last() =~= before);
            assert(code@.take(k + 1).last() == c);
        }
        if c == '\n' {
            pending = pending + 1;
            proof {
                assert(trim_line_feeds(code@.take(k + 1)) =~= kept);
            }
        } else {
            let mut j: usize = 0;
            while j < pending
                invariant
                    j <= pending,
                    pending == trailing_line_feeds(before),
                    pending <= before.len(),
                    before == code@.take(k),
                    out@ == expand_tabs(before.take(before.len() - pending + j)),
                decreases pending - j,
            {
                let ghost shorter = before.take(before.len() - pending + j);
                let ghost longer = before.take(before.len() - pending + j + 1);
                proof {
                    lemma_trailing_run(before, (pending - j) as nat);
                    assert(longer.drop_last() =~= shorter);
                    assert(longer.last() == '\n');
                }
                push_char(&mut out, '\n');
                j = j + 1;
            }
            proof {
                assert(before.take(before.len() as int) =~= before);
                assert(trim_line_feeds(code@.take(k + 1)) =~= code@.take(k + 1));
            }
            if c == '\t' {
                let mut n: usize = 0;
                while n < TAB_WIDTH
                    invariant
                        n <= TAB_WIDTH,
                        out@ == expand_tabs(before) + Seq::new(n as nat, |i: int| ' '),
                    decreases TAB_WIDTH - n,
                {
                    push_char(&mut out, ' ');
                    n = n + 1;
                    assert(out@ =~= expand_tabs(before) + Seq::new(n as nat, |i: int| ' '));
                }
            } else {
                push_char(&mut out, c);
            }
            pending = 0;
        }
    }
    proof {
        assert(code@.take(code@.len() as int) =~= code@);
    }
    out
}

/// Each of the last `n` characters of `s` is a line feed, where `s` ends in
/// at least `n` line feeds.
proof fn lemma_trailing_run(s: Seq<char>, n: nat)
    requires
        1 <= n <= trailing_line_feeds(s),
    ensures
        n <= s.len(),
        s[s.len() - n] == '\n',
    decreases n,
{
    lemma_trailing_line_feeds_bound(s);
    if n > 1 {
        lemma_trailing_run(s.drop_last(), (n - 1) as nat);
    }
}

/// The character that writes the digit `d`.
pub open spec fn digit_char(d: nat) -> char {
    if d == 0 {
        '0'
    } else if d == 1 {
        '1'
    } else if d == 2 {
        '2'
    } else if d == 3 {
        '3'
    } else if d == 4 {
        '4'
    } else if d == 5 {
        '5'
    } else if d == 6 {
        '6'
    } else if d == 7 {
        '7'
    } else if d == 8 {
        '8'
    } else {
        '9'
    }
}

/// `n` written in base ten, without leading zeros.
pub open spec fn decimal(n: nat) -> Seq<char>
    decreases n,
{
    if n < 10 {
        seq![digit_char(n)]
    } else {
        decimal(n / 10).push(digit_char(n % 10))
    }
}

/// The number of digits of `n` in base ten.
pub open spec fn digit_count(n: nat) -> nat {
    decimal(n).len()
}

/// `s` moved to the right edge of a field of `width` characters: spaces are
/// put before it, and a text that is already as long stays as it is.
pub open spec fn pad_left(s: Seq<char>, width: nat) -> Seq<char> {
    if s.len() >= width {
        s
    } else {
        Seq::new((width - s.len()) as nat, |i: int| ' ') + s
    }
}

/// `parts` in one text, with a line feed between each two neighbours.
pub open spec fn join_lines(parts: Seq<Seq<char>>) -> Seq<char>
    decreases parts.len(),
{
    if parts.len() == 0 {
        Seq::<char>::empty()
    } else if parts.len() == 1 {
        parts[0]
    } else {
        join_lines(parts.drop_last()) + seq!['\n'] + parts.last()
    }
}

/// A number has at least one digit, and no more than a larger number has.
pub proof fn lemma_digit_count_monotonic(a: nat, b: nat)
    requires
        a <= b,
    ensures
        1 <= digit_count(a) <= digit_count(b),
    decreases b,
{
    if a >= 10 {
        lemma_digit_count_monotonic(a / 10, b / 10);
    } else if b >= 10 {
        lemma_digit_count_monotonic(0, b / 10);
    }
}

fn digit_str(d: u8) -> (s: &'static str)
    requires
        d < 10,
    ensures
        s@ == seq![digit_char(d as nat)],
{
    proof {
        reveal_strlit("0");
        reveal_strlit("1");
        reveal_strlit("2");
        reveal_strlit("3");
        reveal_strlit("4");
        reveal_strlit("5");
        reveal_strlit("6");
        reveal_strlit("7");
        reveal_strlit("8");
        reveal_strlit("9");
    }
    let s = match d {
        0 => "0",
        1 => "1",
        2 => "2",
        3 => "3",
        4 => "4",
        5 => "5",
        6 => "6",
        7 => "7",
        8 => "8",
        _ => "9",
    };
    assert(s@ =~= seq![digit_char(d as nat)]);
    s
}

/// Writes `n` in base ten at the end of `out`.
pub fn push_decimal(out: &mut String, n: u128)
    ensures
        final(out)@ == old(out)@ + decimal(n as nat),
    decreases n,
{
    if n >= 10 {
        push_decimal(out, n / 10);
    }
    let d: u8 = (n % 10) as u8;
    out.append(digit_str(d));
    proof {
        if n >= 10 {
            assert(final(out)@ =~= old(out)@ + decimal(n as nat));
        } else {
            assert(final(out)@ =~= old(out)@ + decimal(n as nat));
        }
    }
}

/// `s` moved to the right edge of a field of `width` characters.
pub fn right_align(s: &str, width: usize) -> (out: String)
    ensures
        out@ == pad_left(s@, width as nat),
{
    let len: usize = s.unicode_len();
    let mut out = String::new();
    if len < width {
        let missing: usize = width - len;
        let mut i: usize = 0;
        while i < missing
            invariant
                i <= missing,
                out@ == Seq::new(i as nat, |k: int| ' '),
            decreases missing - i,
        {
            proof {
                reveal_strlit(" ");
            }
            out.append(" ");
            i = i + 1;
            assert(out@ =~= Seq::new(i as nat, |k: int| ' '));
        }
    }
    out.append(s);
    assert(out@ =~= pad_left(s@, width as nat));
    out
}

/// The texts of `parts`, each as its characters.
pub open spec fn texts(parts: Seq<String>) -> Seq<Seq<char>> {
    Seq::new(parts.len(), |i: int| parts[i]@)
}

/// `parts` in one text, with a line feed between each two neighbours.
pub fn join(parts: &Vec<String>) -> (out: String)
    ensures
        out@ == join_lines(texts(parts@)),
{
    let mut out = String::new();
    let mut i: usize = 0;
    while i < parts.len()
        invariant
            i <= parts.len(),
            out@ == join_lines(texts(parts@).take(i as int)),
        decreases parts.len() - i,
    {
        let ghost done = texts(parts@).take(i as int);
        let ghost next = texts(parts@).take(i + 1);
        proof {
            reveal_strlit("\n");
            assert(next.drop_last() =~= done);
            assert(next.last() == parts@[i as int]@);
        }
        if i > 0 {
            out.append("\n");
        }
        out.append(parts[i].as_str());
        proof {
            if i == 0 {
                assert(out@ =~= next[0]);
            } else {
                assert(out@ =~= join_lines(done) + seq!['\n'] + next.last());
            }
        }
        i = i + 1;
    }
    proof {
        assert(texts(parts@).take(parts.len() as int) =~= texts(parts@));
    }
    out
}

} // verus!

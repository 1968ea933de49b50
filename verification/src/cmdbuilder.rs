//! A command to spawn into a pty: a program, its arguments and overrides of
//! the environment, and how to render them as one command line for the
//! Windows process API.

use vstd::prelude::*;

verus! {

pub const NUL: u16 = 0;

pub const TAB: u16 = 0x09;

pub const NEWLINE: u16 = 0x0a;

pub const VTAB: u16 = 0x0b;

pub const SPACE: u16 = 0x20;

pub const QUOTE: u16 = 0x22;

pub const BACKSLASH: u16 = 0x5c;

/// White space or a quote: what forces an argument into quotes.
pub open spec fn is_special(c: u16) -> bool {
    c == SPACE || c == TAB || c == NEWLINE || c == VTAB || c == QUOTE
}

/// An argument is quoted where it is empty or holds a special unit.
pub open spec fn needs_quotes(arg: Seq<u16>) -> bool {
    arg.len() == 0 || exists|i: int| 0 <= i < arg.len() && is_special(#[trigger] arg[i])
}

/// The index of the first unit at or after `i` that is no backslash; the
/// length of `arg` where backslashes run to the end.
pub open spec fn run_end(arg: Seq<u16>, i: int) -> int
    decreases arg.len() - i,
{
    if 0 <= i < arg.len() && arg[i] == BACKSLASH {
        run_end(arg, i + 1)
    } else {
        i
    }
}

/// Whether the backslash at `i` is doubled: it is where the run of
/// backslashes that it stands in reaches a quote or the end of `arg`.
pub open spec fn run_doubles(arg: Seq<u16>, i: int) -> bool {
    let e = run_end(arg, i);
    e >= arg.len() || arg[e] == QUOTE
}

/// What the unit at `i` becomes inside quotes: a quote gets a backslash in
/// front, a backslash is doubled where `run_doubles` says so, anything else
/// stays.
pub open spec fn escaped_unit(arg: Seq<u16>, i: int) -> Seq<u16> {
    if arg[i] == QUOTE {
        seq![BACKSLASH, QUOTE]
    } else if arg[i] == BACKSLASH {
        if run_doubles(arg, i) {
            seq![BACKSLASH, BACKSLASH]
        } else {
            seq![BACKSLASH]
        }
    } else {
        seq![arg[i]]
    }
}

/// What the first `n` units of `arg` become inside quotes.
pub open spec fn escaped(arg: Seq<u16>, n: int) -> Seq<u16>
    decreases n,
{
    if n <= 0 {
        Seq::empty()
    } else {
        escaped(arg, n - 1) + escaped_unit(arg, n - 1)
    }
}

/// The argument as it stands on the command line: as it is where nothing in
/// it needs quoting, else what its units become, between quotes.
pub open spec fn quoted(arg: Seq<u16>) -> Seq<u16> {
    if needs_quotes(arg) {
        seq![QUOTE] + escaped(arg, arg.len() as int) + seq![QUOTE]
    } else {
        arg
    }
}

/// `n` backslashes.
pub open spec fn backslashes(n: nat) -> Seq<u16> {
    Seq::new(n, |i: int| BACKSLASH)
}

/// Inside a run of backslashes every index has the same `run_end`.
proof fn lemma_run_end(arg: Seq<u16>, from: int, to: int)
    requires
        0 <= from <= to <= arg.len(),
        forall|j: int| from <= j < to ==> arg[j] == BACKSLASH,
        to == arg.len() || arg[to] != BACKSLASH,
    ensures
        run_end(arg, from) == to,
    decreases to - from,
{
    if from < to {
        lemma_run_end(arg, from + 1, to);
    }
}

/// Inside a run of backslashes from `from` to `to`, what stands before `mid`
/// adds that many backslashes to the escaped text, or twice that many where a
/// quote or the end follows the run.
proof fn lemma_escaped_run(arg: Seq<u16>, from: int, mid: int, to: int)
    requires
        0 <= from <= mid <= to <= arg.len(),
        forall|j: int| from <= j < to ==> arg[j] == BACKSLASH,
        to == arg.len() || arg[to] != BACKSLASH,
    ensures
        escaped(arg, mid) == escaped(arg, from) + backslashes(
            if to == arg.len() || arg[to] == QUOTE {
                (2 * (mid - from)) as nat
            } else {
                (mid - from) as nat
            },
        ),
    decreases mid - from,
{
    let doubles = to == arg.len() || arg[to] == QUOTE;
    if from == mid {
        assert(escaped(arg, from) + backslashes(0) =~= escaped(arg, from));
    } else {
        lemma_escaped_run(arg, from, mid - 1, to);
        lemma_run_end(arg, mid - 1, to);
        if doubles {
            assert(backslashes((2 * (mid - 1 - from)) as nat) + seq![BACKSLASH, BACKSLASH]
                =~= backslashes((2 * (mid - from)) as nat));
        } else {
            assert(backslashes((mid - 1 - from) as nat) + seq![BACKSLASH] =~= backslashes(
                (mid - from) as nat,
            ));
        }
    }
}

/// Says whether `arg` has to stand in quotes.
pub fn must_quote(arg: &[u16]) -> (r: bool)
    ensures
        r == needs_quotes(arg@),
{
    if arg.len() == 0 {
        return true;
    }
    let mut i: usize = 0;
    while i < arg.len()
        invariant
            i <= arg.len(),
            forall|j: int| 0 <= j < i ==> !is_special(#[trigger] arg@[j]),
        decreases arg.len() - i,
    {
        let c = arg[i];
        if c == SPACE || c == TAB || c == NEWLINE || c == VTAB || c == QUOTE {
            return true;
        }
        i = i + 1;
    }
    false
}

/// Appends `count` backslashes to `out`.
fn push_backslashes(out: &mut Vec<u16>, count: usize)
    ensures
        final(out)@ == old(out)@ + backslashes(count as nat),
{
    let mut k: usize = 0;
    while k < count
        invariant
            k <= count,
            out@ == old(out)@ + backslashes(k as nat),
        decreases count - k,
    {
        let ghost before = out@;
        out.push(BACKSLASH);
        k = k + 1;
        assert(out@ =~= old(out)@ + backslashes(k as nat));
    }
}

/// Appends the units of `units` to `out`.
fn push_all(out: &mut Vec<u16>, units: &[u16])
    ensures
        final(out)@ == old(out)@ + units@,
{
    let mut k: usize = 0;
    while k < units.len()
        invariant
            k <= units.len(),
            out@ == old(out)@ + units@.take(k as int),
        decreases units.len() - k,
    {
        out.push(units[k]);
        k = k + 1;
        assert(out@ =~= old(out)@ + units@.take(k as int));
    }
    assert(units@.take(units@.len() as int) =~= units@);
}

/// Appends `arg` to `cmdline` in the form in which the command line must
/// hold it: as it is where nothing in it needs quoting, else between double
/// quotes, with a backslash before each quote inside and with each run of
/// backslashes doubled where a quote or the closing quote follows it.
pub fn append_quoted(arg: &[u16], cmdline: &mut Vec<u16>)
    ensures
        final(cmdline)@ == old(cmdline)@ + quoted(arg@),
{
    if !must_quote(arg) {
        push_all(cmdline, arg);
        return ;
    }
    let ghost start = cmdline@;
    cmdline.push(QUOTE);
    let mut i: usize = 0;
    while i < arg.len()
        invariant
            i <= arg.len(),
            cmdline@ == start + seq![QUOTE] + escaped(arg@, i as int),
        decreases arg.len() - i,
    {
        let run_start = i;
        let mut num_backslashes: usize = 0;
        while i < arg.len() && arg[i] == BACKSLASH
            invariant
                run_start <= i <= arg.len(),
                num_backslashes == i - run_start,
                forall|j: int| run_start <= j < i ==> arg@[j] == BACKSLASH,
            decreases arg.len() - i,
        {
            i = i + 1;
            num_backslashes = num_backslashes + 1;
        }
        proof {
            lemma_escaped_run(arg@, run_start as int, i as int, i as int);
        }
        let ghost before = cmdline@;
        if i == arg.len() {
            push_backslashes(cmdline, num_backslashes);
            push_backslashes(cmdline, num_backslashes);
            assert(cmdline@ =~= before + backslashes((2 * num_backslashes) as nat));
        } else if arg[i] == QUOTE {
            push_backslashes(cmdline, num_backslashes);
            push_backslashes(cmdline, num_backslashes);
            cmdline.push(BACKSLASH);
            cmdline.push(QUOTE);
            assert(cmdline@ =~= before + backslashes((2 * num_backslashes) as nat) + escaped_unit(
                arg@,
                i as int,
            ));
            i = i + 1;
        } else {
            push_backslashes(cmdline, num_backslashes);
            cmdline.push(arg[i]);
            assert(cmdline@ =~= before + backslashes(num_backslashes as nat) + escaped_unit(
                arg@,
                i as int,
            ));
            i = i + 1;
        }
    }
    cmdline.push(QUOTE);
}

/// The UTF-16 form of one character: itself where 16 bits hold it, else a
/// pair of surrogates that share its bits above 0x10000.
pub open spec fn utf16_char(c: char) -> Seq<u16> {
    let v = c as u32;
    if v < 0x10000 {
        seq![v as u16]
    } else {
        seq![(0xD800 + (v - 0x10000) / 0x400) as u16, (0xDC00 + (v - 0x10000) % 0x400) as u16]
    }
}

/// The UTF-16 form of a text.
pub open spec fn utf16(s: Seq<char>) -> Seq<u16>
    decreases s.len(),
{
    if s.len() == 0 {
        Seq::empty()
    } else {
        utf16(s.drop_last()) + utf16_char(s.last())
    }
}

/// Encodes `s` as UTF-16, as the wide-character API of Windows takes text.
pub fn encode_wide(s: &str) -> (r: Vec<u16>)
    ensures
        r@ == utf16(s@),
{
    let mut out: Vec<u16> = Vec::new();
    for c in iter: s.chars()
        invariant
            iter.seq() == s@,
            out@ == utf16(s@.take(iter.index() as int)),
    {
        let ghost before = s@.take(iter.index() as int);
        let v: u32 = c as u32;
        if v < 0x10000 {
            out.push(v as u16);
        } else {
            let w: u32 = v - 0x10000;
            out.push((0xD800 + w / 0x400) as u16);
            out.push((0xDC00 + w % 0x400) as u16);
        }
        proof {
            let after = s@.take(iter.index() + 1);
            assert(after.drop_last() =~= before);
            assert(after.last() == c);
        }
    }
    assert(s@.take(s@.len() as int) =~= s@);
    out
}

/// Whether a unit ends an argument where it stands outside quotes.
pub open spec fn is_blank(c: u16) -> bool {
    c == SPACE || c == TAB
}

/// How far the reading of an argument has come, as Windows reads a command
/// line: whether it is inside quotes, how many backslashes it has seen and
/// not yet decided about, what of the argument it has made out, and whether
/// the argument has ended.
pub struct Reading {
    pub in_quotes: bool,
    pub pending: nat,
    pub out: Seq<u16>,
    pub done: bool,
}

/// Before the first unit.
pub open spec fn reading_start() -> Reading {
    Reading { in_quotes: false, pending: 0, out: Seq::empty(), done: false }
}

/// Takes in one unit. Backslashes are held back until it shows what follows
/// them. Before a quote each two of them stand for one, and one that is
/// left over makes the quote a part of the argument; a quote that is no
/// part of the argument opens or closes quotes. Before anything else they
/// stand for themselves. A blank outside quotes ends the argument.
pub open spec fn reading_step(r: Reading, c: u16) -> Reading {
    if r.done {
        r
    } else if c == BACKSLASH {
        Reading { pending: r.pending + 1, ..r }
    } else if c == QUOTE {
        if r.pending % 2 == 1 {
            Reading {
                pending: 0,
                out: r.out + backslashes(r.pending / 2) + seq![QUOTE],
                ..r
            }
        } else {
            Reading {
                in_quotes: !r.in_quotes,
                pending: 0,
                out: r.out + backslashes(r.pending / 2),
                ..r
            }
        }
    } else if !r.in_quotes && is_blank(c) {
        Reading { pending: 0, out: r.out + backslashes(r.pending), done: true, ..r }
    } else {
        Reading { pending: 0, out: r.out + backslashes(r.pending) + seq![c], ..r }
    }
}

/// Takes in the units of `line`, one after the other.
pub open spec fn reading_of(r: Reading, line: Seq<u16>) -> Reading
    decreases line.len(),
{
    if line.len() == 0 {
        r
    } else {
        reading_step(reading_of(r, line.drop_last()), line.last())
    }
}

/// The argument that a reading has come to when the line ends: backslashes
/// that are still held back stand for themselves.
pub open spec fn reading_result(r: Reading) -> Seq<u16> {
    r.out + backslashes(r.pending)
}

/// The first argument of a command line, as Windows splits it.
pub open spec fn first_argument(line: Seq<u16>) -> Seq<u16> {
    reading_result(reading_of(reading_start(), line))
}

/// How many backslashes stand right before the index `i` of `arg`.
pub open spec fn trailing(arg: Seq<u16>, i: int) -> nat
    decreases i,
{
    if i <= 0 || i > arg.len() || arg[i - 1] != BACKSLASH {
        0
    } else {
        1 + trailing(arg, i - 1)
    }
}

proof fn lemma_reading_append(r: Reading, a: Seq<u16>, b: Seq<u16>)
    ensures
        reading_of(r, a + b) == reading_of(reading_of(r, a), b),
    decreases b.len(),
{
    if b.len() == 0 {
        assert(a + b =~= a);
    } else {
        assert((a + b).drop_last() =~= a + b.drop_last());
        lemma_reading_append(r, a, b.drop_last());
    }
}

proof fn lemma_reading_one(r: Reading, c: u16)
    ensures
        reading_of(r, seq![c]) == reading_step(r, c),
{
    assert(seq![c].drop_last() =~= Seq::<u16>::empty());
    assert(reading_of(r, Seq::<u16>::empty()) == r);
    assert(seq![c].last() == c);
}

proof fn lemma_reading_two(r: Reading, c: u16, d: u16)
    ensures
        reading_of(r, seq![c, d]) == reading_step(reading_step(r, c), d),
{
    assert(seq![c, d].drop_last() =~= seq![c]);
    assert(seq![c, d].last() == d);
    lemma_reading_one(r, c);
}

/// Once the argument has ended, nothing on the line changes it.
proof fn lemma_reading_done(r: Reading, line: Seq<u16>)
    requires
        r.done,
    ensures
        reading_of(r, line) == r,
    decreases line.len(),
{
    if line.len() > 0 {
        lemma_reading_done(r, line.drop_last());
    }
}

/// The backslashes right before `i` are backslashes, there are no more of
/// them than units before `i`, and what stands before them is none.
proof fn lemma_trailing(arg: Seq<u16>, i: int)
    requires
        0 <= i <= arg.len(),
    ensures
        trailing(arg, i) <= i,
        forall|j: int| i - trailing(arg, i) <= j < i ==> arg[j] == BACKSLASH,
        arg.take(i - trailing(arg, i)) + backslashes(trailing(arg, i)) == arg.take(i),
    decreases i,
{
    if i > 0 && arg[i - 1] == BACKSLASH {
        lemma_trailing(arg, i - 1);
    }
    let t = trailing(arg, i);
    assert(arg.take(i - t) + backslashes(t) =~= arg.take(i));
}

/// Reading an argument that stands on the line as it is: what has been made
/// out and what is held back are together the units that were read.
proof fn lemma_reading_plain(arg: Seq<u16>, i: int)
    requires
        0 <= i <= arg.len(),
        forall|j: int| 0 <= j < arg.len() ==> !is_special(#[trigger] arg[j]),
    ensures
        ({
            let r = reading_of(reading_start(), arg.take(i));
            &&& !r.done
            &&& !r.in_quotes
            &&& reading_result(r) == arg.take(i)
        }),
    decreases i,
{
    if i == 0 {
        assert(arg.take(0) =~= Seq::<u16>::empty());
        assert(reading_result(reading_start()) =~= Seq::<u16>::empty());
    } else {
        lemma_reading_plain(arg, i - 1);
        assert(arg.take(i).drop_last() =~= arg.take(i - 1));
        let before = reading_of(reading_start(), arg.take(i - 1));
        let c = arg[i - 1];
        assert(arg.take(i).last() == c);
        assert(!is_special(c));
        let after = reading_step(before, c);
        if c == BACKSLASH {
            assert(backslashes(before.pending + 1) =~= backslashes(before.pending) + seq![c]);
        } else {
            assert(backslashes(0) =~= Seq::<u16>::empty());
        }
        assert(reading_result(after) =~= reading_result(before) + seq![c]);
        assert(arg.take(i) =~= arg.take(i - 1) + seq![c]);
    }
}

/// Reading the inside of a quoted argument. After the opening quote and
/// what the first `i` units of `arg` have become, the reading is inside
/// quotes, has made out those units but for the backslashes at their end,
/// and holds back what those backslashes have become: twice their number
/// where their run is one that is doubled, else their number.
proof fn lemma_reading_quoted(arg: Seq<u16>, i: int)
    requires
        0 <= i <= arg.len(),
    ensures
        ({
            let r = reading_of(reading_start(), seq![QUOTE] + escaped(arg, i));
            let t = trailing(arg, i);
            &&& !r.done
            &&& r.in_quotes
            &&& r.out == arg.take(i - t)
            &&& r.pending == if t > 0 && run_doubles(arg, i - 1) {
                2 * t
            } else {
                t
            }
        }),
    decreases i,
{
    let open = seq![QUOTE];
    if i == 0 {
        assert(open + escaped(arg, 0) =~= open);
        lemma_reading_one(reading_start(), QUOTE);
        assert(backslashes(0) =~= Seq::<u16>::empty());
        assert(arg.take(0) =~= Seq::<u16>::empty());
        assert(reading_start().out + backslashes(0) =~= arg.take(0));
    } else {
        lemma_reading_quoted(arg, i - 1);
        lemma_trailing(arg, i - 1);
        lemma_trailing(arg, i);
        let before = reading_of(reading_start(), open + escaped(arg, i - 1));
        let unit = escaped_unit(arg, i - 1);
        assert(open + escaped(arg, i) =~= (open + escaped(arg, i - 1)) + unit);
        lemma_reading_append(reading_start(), open + escaped(arg, i - 1), unit);
        let c = arg[i - 1];
        let t = trailing(arg, i - 1);
        if c == QUOTE {
            // the run before the quote is one that is doubled
            if t > 0 {
                assert(run_end(arg, i - 2) == i - 1) by {
                    reveal_with_fuel(run_end, 2);
                }
            }
            assert(before.pending == 2 * t);
            lemma_reading_two(before, BACKSLASH, QUOTE);
            assert((2 * t + 1) % 2 == 1 && (2 * t + 1) / 2 == t) by (nonlinear_arith);
            assert(arg.take(i - 1 - t) + backslashes(t) + seq![QUOTE] =~= arg.take(i));
        } else if c == BACKSLASH {
            if t > 0 {
                assert(run_doubles(arg, i - 2) == run_doubles(arg, i - 1)) by {
                    reveal_with_fuel(run_end, 2);
                }
            }
            if run_doubles(arg, i - 1) {
                lemma_reading_two(before, BACKSLASH, BACKSLASH);
            } else {
                lemma_reading_one(before, BACKSLASH);
            }
        } else {
            // the run before this unit is one that is not doubled
            if t > 0 {
                assert(run_end(arg, i - 2) == i - 1) by {
                    reveal_with_fuel(run_end, 2);
                }
            }
            assert(before.pending == t);
            lemma_reading_one(before, c);
            assert(arg.take(i - 1 - t) + backslashes(t) + seq![c] =~= arg.take(i));
        }
    }
}

/// What `append_quoted` writes is read back as it was, as one argument. On
/// a command line that begins with `quoted(arg)`, and on which a blank or
/// nothing at all follows it, Windows finds `arg` as the first argument,
/// whatever `arg` holds. The argument does not end before the quoted text
/// does, nor inside quotes; it ends with the blank that follows, where one
/// does.
pub proof fn quoted_reads_back(arg: Seq<u16>, rest: Seq<u16>)
    requires
        rest.len() == 0 || is_blank(rest[0]),
    ensures
        first_argument(quoted(arg) + rest) == arg,
        !reading_of(reading_start(), quoted(arg)).done,
        !reading_of(reading_start(), quoted(arg)).in_quotes,
        rest.len() > 0 ==> reading_of(reading_start(), quoted(arg) + rest.take(1)).done,
{
    let q = quoted(arg);
    let len = arg.len() as int;
    lemma_reading_append(reading_start(), q, rest);
    let at_end = reading_of(reading_start(), q);
    if needs_quotes(arg) {
        let open = seq![QUOTE];
        lemma_reading_quoted(arg, len);
        lemma_trailing(arg, len);
        let inside = reading_of(reading_start(), open + escaped(arg, len));
        let t = trailing(arg, len);
        assert(q =~= (open + escaped(arg, len)) + seq![QUOTE]);
        lemma_reading_append(reading_start(), open + escaped(arg, len), seq![QUOTE]);
        lemma_reading_one(inside, QUOTE);
        if t > 0 {
            // the backslashes at the end of the argument are doubled
            assert(run_end(arg, len - 1) == len) by {
                reveal_with_fuel(run_end, 2);
            }
        }
        assert(inside.pending == 2 * t);
        assert((2 * t) % 2 == 0 && (2 * t) / 2 == t) by (nonlinear_arith);
        assert(arg.take(len) =~= arg);
        assert(at_end.out == arg);
        assert(!at_end.in_quotes && at_end.pending == 0 && !at_end.done);
    } else {
        assert forall|j: int| 0 <= j < arg.len() implies !is_special(#[trigger] arg[j]) by {}
        lemma_reading_plain(arg, len);
        assert(arg.take(len) =~= arg);
    }
    assert(reading_result(at_end) == arg) by {
        assert(backslashes(0) =~= Seq::<u16>::empty());
        assert(arg + Seq::<u16>::empty() =~= arg);
    }
    if rest.len() == 0 {
        assert(q + rest =~= q);
    } else {
        let blank = seq![rest[0]];
        assert(rest =~= blank + rest.skip(1));
        lemma_reading_append(at_end, blank, rest.skip(1));
        lemma_reading_one(at_end, rest[0]);
        let stopped = reading_step(at_end, rest[0]);
        assert(rest.take(1) =~= blank);
        lemma_reading_append(reading_start(), q, blank);
        lemma_reading_done(stopped, rest.skip(1));
        assert(stopped.out == reading_result(at_end));
        assert(reading_result(stopped) =~= stopped.out) by {
            assert(backslashes(0) =~= Seq::<u16>::empty());
        }
    }
}

/// A place to look for a program: a directory of the search path by its
/// index, and the program's name either as it was given or with its
/// extension replaced by one of the list of extensions, by its index.
#[derive(Clone, Copy, Debug, PartialEq, Eq, Structural)]
pub struct Candidate {
    pub dir: usize,
    pub ext: Option<usize>,
}

/// The place to look first, among `n_dirs` directories: the first
/// directory, with the name as it was given.
pub fn first_candidate(n_dirs: usize) -> (r: Option<Candidate>)
    ensures
        r == if n_dirs > 0 {
            Some(Candidate { dir: 0, ext: None })
        } else {
            None
        },
{
    if n_dirs > 0 {
        Some(Candidate { dir: 0, ext: None })
    } else {
        None
    }
}

/// The place to look after `c` has turned out not to exist. Within a
/// directory the name as given comes first, then the extensions in their
/// order; after the last of them comes the next directory. `None` where
/// nothing is left: then the name is used as it was given.
pub fn next_candidate(c: Candidate, n_dirs: usize, n_exts: usize) -> (r: Option<Candidate>)
    ensures
        r == match c.ext {
            None if n_exts > 0 => Some(Candidate { dir: c.dir, ext: Some(0) }),
            Some(e) if e < n_exts - 1 => Some(Candidate { dir: c.dir, ext: Some((e + 1) as usize) }),
            _ => if c.dir < n_dirs - 1 {
                Some(Candidate { dir: (c.dir + 1) as usize, ext: None })
            } else {
                None
            },
        },
{
    let within = match c.ext {
        None => if n_exts > 0 {
            Some(0usize)
        } else {
            None
        },
        Some(e) => if n_exts > 0 && e < n_exts - 1 {
            Some(e + 1)
        } else {
            None
        },
    };
    match within {
        Some(e) => Some(Candidate { dir: c.dir, ext: Some(e) }),
        None => if n_dirs > 0 && c.dir < n_dirs - 1 {
            Some(Candidate { dir: c.dir + 1, ext: None })
        } else {
            None
        },
    }
}

/// Whether a unit of `s` is nul.
pub open spec fn has_nul(s: Seq<u16>) -> bool {
    exists|i: int| 0 <= i < s.len() && #[trigger] s[i] == NUL
}

/// Says whether a unit of `s` is nul.
pub fn contains_nul(s: &[u16]) -> (r: bool)
    ensures
        r == has_nul(s@),
{
    let mut i: usize = 0;
    while i < s.len()
        invariant
            i <= s.len(),
            forall|j: int| 0 <= j < i ==> #[trigger] s@[j] != NUL,
        decreases s.len() - i,
    {
        if s[i] == NUL {
            return true;
        }
        i = i + 1;
    }
    false
}

/// The command line for the program `exe` and the arguments `argv[1..=n]`:
/// the quoted program, then a space and the quoted argument for each.
pub open spec fn command_line(exe: Seq<u16>, argv: Seq<Seq<char>>, n: int) -> Seq<u16>
    decreases n,
{
    if n <= 0 {
        quoted(exe)
    } else {
        command_line(exe, argv, n - 1) + seq![SPACE] + quoted(utf16(argv[n]))
    }
}

/// Where the argument `argv[k]` begins on the command line: behind the
/// arguments before it and the space that follows them.
pub open spec fn argument_start(exe: Seq<u16>, argv: Seq<Seq<char>>, k: int) -> int {
    (command_line(exe, argv, k - 1).len() + 1) as int
}

/// The command line for more arguments begins like that for fewer, and goes
/// on with a space where it goes on.
proof fn lemma_command_line_grows(exe: Seq<u16>, argv: Seq<Seq<char>>, k: int, n: int)
    requires
        0 <= k <= n,
    ensures
        command_line(exe, argv, k).len() <= command_line(exe, argv, n).len(),
        command_line(exe, argv, n).take(command_line(exe, argv, k).len() as int) == command_line(
            exe,
            argv,
            k,
        ),
        k < n ==> command_line(exe, argv, k).len() < command_line(exe, argv, n).len()
            && command_line(exe, argv, n)[command_line(exe, argv, k).len() as int] == SPACE,
    decreases n - k,
{
    let short = command_line(exe, argv, k);
    let long = command_line(exe, argv, n);
    if k == n {
        assert(long.take(long.len() as int) =~= long);
    } else {
        lemma_command_line_grows(exe, argv, k, n - 1);
        let before = command_line(exe, argv, n - 1);
        assert(long == before + seq![SPACE] + quoted(utf16(argv[n])));
        assert(long.take(short.len() as int) =~= before.take(short.len() as int));
        if k < n - 1 {
            assert(long[short.len() as int] == before[short.len() as int]);
        } else {
            assert(long[short.len() as int] == SPACE);
        }
    }
}

/// Every argument of the command line is read back as it was given. On the
/// line for `argv[1..=n]`, from where `argv[k]` begins, Windows finds the
/// UTF-16 form of `argv[k]` as the next argument.
pub proof fn command_line_reads_back(exe: Seq<u16>, argv: Seq<Seq<char>>, n: int, k: int)
    requires
        1 <= k <= n < argv.len(),
    ensures
        argument_start(exe, argv, k) <= command_line(exe, argv, n).len(),
        first_argument(command_line(exe, argv, n).skip(argument_start(exe, argv, k))) == utf16(
            argv[k],
        ),
{
    let line = command_line(exe, argv, n);
    let arg = quoted(utf16(argv[k]));
    let upto = command_line(exe, argv, k);
    let start = argument_start(exe, argv, k);
    lemma_command_line_grows(exe, argv, k, n);
    assert(upto == command_line(exe, argv, k - 1) + seq![SPACE] + arg);
    assert(upto.len() == start + arg.len());
    let rest = line.skip(upto.len() as int);
    assert(line.skip(start) =~= arg + rest) by {
        assert(line.take(upto.len() as int) == upto);
        assert forall|i: int| 0 <= i < arg.len() implies line.skip(start)[i] == arg[i] by {
            assert(line[start + i] == line.take(upto.len() as int)[start + i]);
            assert(upto[start + i] == arg[i]);
        }
    }
    if k < n {
        assert(rest[0] == line[upto.len() as int]);
    }
    quoted_reads_back(utf16(argv[k]), rest);
}

/// An argument of the command holds a nul, which no command line can carry.
#[derive(Clone, Copy, Debug, PartialEq, Eq, Structural)]
pub struct InvalidArg {
    /// Which argument: its index in the argv. Index 0 is the program, by
    /// its name or by the path that it was resolved to.
    pub index: usize,
}

/// `CommandBuilder` is used to prepare a command to be spawned into a pty.
/// The interface is intentionally similar to that of `std::process::Command`.
#[derive(Debug, PartialEq)]
pub struct CommandBuilder {
    args: Vec<String>,
    envs: Vec<(String, String)>,
}

impl CommandBuilder {
    /// The argument vector; `argv()[0]` is the program.
    pub closed spec fn argv(&self) -> Seq<Seq<char>> {
        self.args@.map_values(|s: String| s@)
    }

    /// The overrides of the environment, in the order in which they were made.
    pub closed spec fn env_overrides(&self) -> Seq<(Seq<char>, Seq<char>)> {
        self.envs@.map_values(|e: (String, String)| (e.0@, e.1@))
    }

    /// Create a new builder instance with argv[0] set to the specified
    /// program.
    pub fn new(program: &str) -> (r: Self)
        ensures
            r.argv() == seq![program@],
            r.env_overrides() == Seq::<(Seq<char>, Seq<char>)>::empty(),
    {
        let mut args: Vec<String> = Vec::new();
        args.push(program.to_owned());
        let r = CommandBuilder { args, envs: Vec::new() };
        assert(r.argv() =~= seq![program@]);
        assert(r.env_overrides() =~= Seq::<(Seq<char>, Seq<char>)>::empty());
        r
    }

    /// Append an argument to the current command line
    pub fn arg(&mut self, arg: &str)
        ensures
            final(self).argv() == old(self).argv().push(arg@),
            final(self).env_overrides() == old(self).env_overrides(),
    {
        self.args.push(arg.to_owned());
        assert(self.argv() =~= old(self).argv().push(arg@));
    }

    /// Append a sequence of arguments to the current command line
    pub fn args(&mut self, args: &[&str])
        ensures
            final(self).argv() == old(self).argv() + args@.map_values(|s: &str| s@),
            final(self).env_overrides() == old(self).env_overrides(),
    {
        let mut i: usize = 0;
        while i < args.len()
            invariant
                i <= args.len(),
                self.argv() == old(self).argv() + args@.take(i as int).map_values(|s: &str| s@),
                self.env_overrides() == old(self).env_overrides(),
            decreases args.len() - i,
        {
            self.arg(args[i]);
            i = i + 1;
            assert(self.argv() =~= old(self).argv() + args@.take(i as int).map_values(
                |s: &str| s@,
            ));
        }
        assert(args@.take(args@.len() as int) =~= args@);
    }

    /// Override the value of an environmental variable
    pub fn env(&mut self, key: &str, val: &str)
        ensures
            final(self).argv() == old(self).argv(),
            final(self).env_overrides() == old(self).env_overrides().push((key@, val@)),
    {
        self.envs.push((key.to_owned(), val.to_owned()));
        assert(self.env_overrides() =~= old(self).env_overrides().push((key@, val@)));
    }

    /// The argument vector, for whoever spawns the command.
    pub fn get_argv(&self) -> (r: &Vec<String>)
        ensures
            r@.map_values(|s: String| s@) == self.argv(),
    {
        &self.args
    }

    /// The overrides of the environment, for whoever spawns the command.
    pub fn get_envs(&self) -> (r: &Vec<(String, String)>)
        ensures
            r@.map_values(|e: (String, String)| (e.0@, e.1@)) == self.env_overrides(),
    {
        &self.envs
    }

    /// Renders the command for the Windows process API, which takes the
    /// program's path and one command line, both as nul-terminated UTF-16.
    /// `exe` is the path that the program was resolved to. The command line
    /// is the quoted path and, after a space each, the quoted arguments.
    ///
    /// Nothing that holds a nul can go on a command line, so the first
    /// argument that holds one is refused by its index. The program is the
    /// argument at index 0: it is refused where its name or the path that it
    /// was resolved to holds a nul.
    pub fn cmdline(&self, exe: &str) -> (r: Result<(Vec<u16>, Vec<u16>), InvalidArg>)
        ensures
            match r {
                Ok((module, line)) => {
                    &&& !has_nul(utf16(exe@))
                    &&& forall|i: int|
                        0 <= i < self.argv().len() ==> !has_nul(utf16(#[trigger] self.argv()[i]))
                    &&& module@ == utf16(exe@) + seq![NUL]
                    &&& line@ == command_line(utf16(exe@), self.argv(), self.argv().len() - 1)
                        + seq![NUL]
                },
                Err(e) => {
                    &&& e.index == 0 || e.index < self.argv().len()
                    &&& if e.index == 0 {
                        has_nul(utf16(exe@)) || (self.argv().len() > 0 && has_nul(
                            utf16(self.argv()[0]),
                        ))
                    } else {
                        !has_nul(utf16(exe@)) && has_nul(utf16(self.argv()[e.index as int]))
                    }
                    &&& forall|i: int|
                        0 <= i < e.index ==> !has_nul(utf16(#[trigger] self.argv()[i]))
                },
            },
    {
        let mut line: Vec<u16> = Vec::new();
        let mut module = encode_wide(exe);
        if contains_nul(module.as_slice()) {
            return Err(InvalidArg { index: 0 });
        }
        if self.args.len() > 0 {
            let program = encode_wide(self.args[0].as_str());
            assert(self.argv()[0] == self.args@[0]@);
            if contains_nul(program.as_slice()) {
                return Err(InvalidArg { index: 0 });
            }
        }
        append_quoted(module.as_slice(), &mut line);
        // Ensure that we nul terminate the module name, otherwise we'll
        // ask CreateProcessW to start something random!
        module.push(NUL);
        assert(module@ =~= utf16(exe@) + seq![NUL]);
        let mut i: usize = 1;
        while i < self.args.len()
            invariant
                1 <= i,
                i <= self.args@.len() || i == 1,
                self.argv().len() == self.args@.len(),
                module@ == utf16(exe@) + seq![NUL],
                line@ == command_line(utf16(exe@), self.argv(), i - 1),
                !has_nul(utf16(exe@)),
                forall|j: int|
                    0 <= j < i && j < self.argv().len() ==> !has_nul(
                        utf16(#[trigger] self.argv()[j]),
                    ),
            decreases self.args.len() - i,
        {
            let wide = encode_wide(self.args[i].as_str());
            assert(self.argv()[i as int] == self.args@[i as int]@);
            if contains_nul(wide.as_slice()) {
                return Err(InvalidArg { index: i });
            }
            line.push(SPACE);
            append_quoted(wide.as_slice(), &mut line);
            i = i + 1;
        }
        // Ensure that the command line is nul terminated too!
        let ghost body = line@;
        line.push(NUL);
        assert(line@ =~= body + seq![NUL]);
        assert(body == command_line(utf16(exe@), self.argv(), self.argv().len() - 1)) by {
            assert(command_line(utf16(exe@), self.argv(), 0) == quoted(utf16(exe@)));
            assert(command_line(utf16(exe@), self.argv(), -1) == quoted(utf16(exe@)));
        }
        Ok((module, line))
    }
}

} // verus!

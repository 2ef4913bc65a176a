//! Small text utilities over `String` and `&str`, specified on `Seq<char>`.

use vstd::prelude::*;
use vstd::std_specs::iter::IteratorSpec;
use vstd::string::StringSliceAdditionalSpecFns;
use vstd::utf8::*;

verus! {

/// `n` copies of the character `c`.
pub open spec fn fill(c: char, n: nat) -> Seq<char> {
    Seq::new(n, |i: int| c)
}

/// `s` followed by as many spaces as it takes to reach `width` characters;
/// `s` itself when it is already that long.
pub open spec fn padded(s: Seq<char>, width: nat) -> Seq<char> {
    if s.len() >= width {
        s
    } else {
        s + fill(' ', (width - s.len()) as nat)
    }
}

/// The decimal digit for `d`, which is below ten.
pub open spec fn digit(d: nat) -> char
    recommends
        d < 10,
{
    "0123456789"@[d as int]
}

/// The decimal numeral of `n`, without leading zeros.
pub open spec fn decimal(n: nat) -> Seq<char>
    decreases n,
{
    if n < 10 {
        seq![digit(n)]
    } else {
        decimal(n / 10).push(digit(n % 10))
    }
}

/// `pattern` with every occurrence of the character `mark` replaced by `with`.
pub open spec fn substituted(pattern: Seq<char>, mark: char, with: Seq<char>) -> Seq<char>
    decreases pattern.len(),
{
    if pattern.len() == 0 {
        Seq::empty()
    } else if pattern.last() == mark {
        substituted(pattern.drop_last(), mark, with) + with
    } else {
        substituted(pattern.drop_last(), mark, with).push(pattern.last())
    }
}

/// Whether two string slices hold the same characters.
pub fn str_eq(a: &str, b: &str) -> (same: bool)
    ensures
        same == (a@ == b@),
{
    let x = a.as_bytes();
    let y = b.as_bytes();
    proof {
        encode_utf8_decode_utf8(a@);
        encode_utf8_decode_utf8(b@);
    }
    if x.len() != y.len() {
        return false;
    }
    let mut i: usize = 0;
    while i < x.len()
        invariant
            x@ == a.spec_bytes(),
            y@ == b.spec_bytes(),
            x.len() == y.len(),
            i <= x.len(),
            forall|k: int| 0 <= k < i ==> x@[k] == y@[k],
        decreases x.len() - i,
    {
        if x[i] != y[i] {
            return false;
        }
        i += 1;
    }
    assert(x@ =~= y@);
    true
}

/// Whether `prefix` is a leading part of `s`, character by character.
pub fn starts_with(s: &str, prefix: &str) -> (found: bool)
    ensures
        found == prefix@.is_prefix_of(s@),
{
    let mut rest = s.chars();
    let mut wanted = prefix.chars();
    let ghost mut n: int = 0;
    loop
        invariant
            0 <= n <= s@.len(),
            n <= prefix@.len(),
            rest.remaining() == s@.skip(n),
            wanted.remaining() == prefix@.skip(n),
            forall|k: int| 0 <= k < n ==> s@[k] == prefix@[k],
        decreases prefix@.len() - n,
    {
        match wanted.next() {
            None => {
                assert(prefix@ =~= s@.subrange(0, prefix@.len() as int));
                return true;
            },
            Some(c) => {
                match rest.next() {
                    None => {
                        return false;
                    },
                    Some(d) => {
                        if c != d {
                            assert(s@[n] != prefix@[n]);
                            return false;
                        }
                        proof {
                            assert(s@.skip(n).drop_first() =~= s@.skip(n + 1));
                            assert(prefix@.skip(n).drop_first() =~= prefix@.skip(n + 1));
                            n = n + 1;
                        }
                    },
                }
            },
        }
    }
}

/// A string of `n` copies of the one character that `unit` holds.
fn filled(unit: &str, n: usize) -> (out: String)
    requires
        unit@.len() == 1,
    ensures
        out@ == fill(unit@[0], n as nat),
{
    let mut out = String::new();
    let mut i: usize = 0;
    while i < n
        invariant
            unit@.len() == 1,
            i <= n,
            out@ == fill(unit@[0], i as nat),
        decreases n - i,
    {
        out.append(unit);
        i += 1;
        assert(out@ =~= fill(unit@[0], i as nat));
    }
    out
}

/// A rule of `n` dashes.
pub fn dashes(n: usize) -> (out: String)
    ensures
        out@ == fill('-', n as nat),
{
    proof {
        reveal_strlit("-");
    }
    filled("-", n)
}

/// `s`, left-aligned in a column of `width` characters.
pub fn pad_right(s: &str, width: usize) -> (out: String)
    ensures
        out@ == padded(s@, width as nat),
{
    let mut out = s.to_owned();
    let have = s.unicode_len();
    if have < width {
        proof {
            reveal_strlit(" ");
        }
        let gap = filled(" ", width - have);
        out.append(gap.as_str());
    }
    out
}

/// The one-character slice that holds the decimal digit for `d`.
fn digit_str(d: u64) -> (out: &'static str)
    requires
        d < 10,
    ensures
        out@ == seq![digit(d as nat)],
{
    proof {
        reveal_strlit("0123456789");
    }
    let digits = "0123456789";
    let at = d as usize;
    let out = digits.substring_char(at, at + 1);
    assert(out@ =~= seq![digit(d as nat)]);
    out
}

/// The decimal numeral of `n`.
pub fn decimal_string(n: u64) -> (out: String)
    ensures
        out@ == decimal(n as nat),
    decreases n,
{
    if n < 10 {
        digit_str(n).to_owned()
    } else {
        let mut out = decimal_string(n / 10);
        out.append(digit_str(n % 10));
        out
    }
}

/// `pattern` with every `%` replaced by `with`.
pub fn substitute_percent(pattern: &str, with: &str) -> (out: String)
    ensures
        out@ == substituted(pattern@, '%', with@),
{
    let mut out = String::new();
    let mut rest = pattern.chars();
    let mut start: usize = 0;
    let mut at: usize = 0;
    let total = pattern.unicode_len();
    loop
        invariant
            total == pattern@.len(),
            start <= at <= total,
            rest.remaining() == pattern@.skip(at as int),
            forall|k: int| start <= k < at ==> pattern@[k] != '%',
            out@ == substituted(pattern@.take(start as int), '%', with@),
        ensures
            at == total,
        decreases total - at,
    {
        match rest.next() {
            None => {
                assert(pattern@.skip(at as int).len() == 0);
                break ;
            },
            Some(c) => {
                proof {
                    assert(pattern@.skip(at as int).drop_first() =~= pattern@.skip(at + 1));
                }
                if c == '%' {
                    let run = pattern.substring_char(start, at);
                    proof {
                        lemma_substituted_plain(
                            pattern@.take(start as int),
                            pattern@.subrange(start as int, at as int),
                            '%',
                            with@,
                        );
                        assert(pattern@.take(start as int) + pattern@.subrange(
                            start as int,
                            at as int,
                        ) =~= pattern@.take(at as int));
                        assert(pattern@.take(at + 1).drop_last() =~= pattern@.take(at as int));
                    }
                    out.append(run);
                    out.append(with);
                    at += 1;
                    start = at;
                } else {
                    at += 1;
                }
            },
        }
    }
    let run = pattern.substring_char(start, total);
    proof {
        lemma_substituted_plain(
            pattern@.take(start as int),
            pattern@.subrange(start as int, total as int),
            '%',
            with@,
        );
        assert(pattern@.take(start as int) + pattern@.subrange(start as int, total as int)
            =~= pattern@);
    }
    out.append(run);
    out
}

/// The strings of `args` from the index `from` on; none when `args` is
/// shorter than that.
pub fn strings_from(args: &[String], from: usize) -> (out: Vec<String>)
    ensures
        from <= args.len() ==> out.deep_view() == args.deep_view().skip(from as int),
        from > args.len() ==> out.deep_view() == Seq::<Seq<char>>::empty(),
{
    let mut out: Vec<String> = Vec::new();
    if from > args.len() {
        assert(out.deep_view() =~= Seq::<Seq<char>>::empty());
        return out;
    }
    let mut i: usize = from;
    while i < args.len()
        invariant
            from <= i <= args.len(),
            out.len() == i - from,
            forall|k: int| 0 <= k < i - from ==> (#[trigger] out@[k])@ == args@[k + from]@,
        decreases args.len() - i,
    {
        out.push(args[i].clone());
        i += 1;
    }
    assert(out.deep_view() =~= args.deep_view().skip(from as int));
    out
}

/// Substitution leaves a tail that holds no mark as it is.
pub proof fn lemma_substituted_plain(head: Seq<char>, tail: Seq<char>, mark: char, with: Seq<char>)
    requires
        forall|k: int| 0 <= k < tail.len() ==> tail[k] != mark,
    ensures
        substituted(head + tail, mark, with) == substituted(head, mark, with) + tail,
    decreases tail.len(),
{
    if tail.len() == 0 {
        assert(head + tail =~= head);
        assert(substituted(head, mark, with) + tail =~= substituted(head, mark, with));
    } else {
        let shorter = tail.drop_last();
        lemma_substituted_plain(head, shorter, mark, with);
        assert((head + tail).drop_last() =~= head + shorter);
        assert((head + tail).last() == tail.last());
        assert((substituted(head, mark, with) + shorter).push(tail.last()) =~= substituted(
            head,
            mark,
            with,
        ) + tail);
    }
}

} // verus!

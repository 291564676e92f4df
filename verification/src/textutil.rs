//! Small verified text helpers: decimal formatting and separator splitting,
//! shared by the rule compilers and the mount-table parser.

use vstd::prelude::*;

verus! {

/// The decimal digit character for a value below ten.
pub open spec fn spec_digit(d: int) -> char {
    if d == 0 {
        '0'
    } else if d == 1 {
        '1'
    } else if d == 2 {
        '2'
    } else if d == 3 {
        '3'
    } else if d == 4 {
        '4'
    } else if d == 5 {
        '5'
    } else if d == 6 {
        '6'
    } else if d == 7 {
        '7'
    } else if d == 8 {
        '8'
    } else {
        '9'
    }
}

/// The decimal text of a natural number, most significant digit first.
pub open spec fn spec_dec(n: nat) -> Seq<char>
    decreases n,
{
    if n < 10 {
        seq![spec_digit(n as int)]
    } else {
        spec_dec(n / 10).push(spec_digit((n % 10) as int))
    }
}

/// The one-character string for a decimal digit.
pub fn digit_str(d: u8) -> (s: &'static str)
    requires
        d < 10,
    ensures
        s@ == seq![spec_digit(d as int)],
{
    proof {
        reveal_strlit("0");
        reveal_strlit("1");
        reveal_strlit("2");
        reveal_strlit("3");
        reveal_strlit("4");
        reveal_strlit("5");
        reveal_strlit("6");
        reveal_strlit("7");
        reveal_strlit("8");
        reveal_strlit("9");
    }
    match d {
        0 => "0",
        1 => "1",
        2 => "2",
        3 => "3",
        4 => "4",
        5 => "5",
        6 => "6",
        7 => "7",
        8 => "8",
        _ => "9",
    }
}

/// Formats a byte-sized value in decimal.
pub fn dec_u8(n: u8) -> (r: String)
    ensures
        r@ == spec_dec(n as nat),
{
    let mut s = String::new();
    if n >= 100 {
        s.append(digit_str(n / 100));
    }
    if n >= 10 {
        s.append(digit_str((n / 10) % 10));
    }
    s.append(digit_str(n % 10));
    proof {
        if n >= 100 {
            assert(spec_dec(n as nat) == spec_dec(n as nat / 10).push(
                spec_digit((n as nat % 10) as int),
            ));
            assert(n as nat / 10 >= 10);
            assert(spec_dec(n as nat / 10) == spec_dec(n as nat / 10 / 10).push(
                spec_digit((n as nat / 10 % 10) as int),
            ));
            assert(n as nat / 10 / 10 == n as nat / 100);
            assert(n as nat / 100 < 10);
            assert(n / 100 == n as nat / 100);
            assert(s@ =~= spec_dec(n as nat));
        } else if n >= 10 {
            assert(spec_dec(n as nat) == spec_dec(n as nat / 10).push(
                spec_digit((n as nat % 10) as int),
            ));
            assert(n as nat / 10 < 10);
            assert((n / 10) % 10 == n as nat / 10);
            assert(s@ =~= spec_dec(n as nat));
        } else {
            assert(s@ =~= spec_dec(n as nat));
        }
    }
    s
}

/// Splitting text at a separator, character by character from the front:
/// empty text is one empty piece; a leading separator opens a new empty
/// piece; any other character extends the first piece of the rest.
pub open spec fn spec_split(s: Seq<char>, sep: char) -> Seq<Seq<char>>
    decreases s.len(),
{
    if s.len() == 0 {
        seq![Seq::<char>::empty()]
    } else if s[0] == sep {
        seq![Seq::<char>::empty()] + spec_split(s.drop_first(), sep)
    } else {
        let rest = spec_split(s.drop_first(), sep);
        seq![seq![s[0]] + rest[0]] + rest.drop_first()
    }
}

/// A split has at least one piece.
pub proof fn lemma_split_len(s: Seq<char>, sep: char)
    ensures
        spec_split(s, sep).len() >= 1,
    decreases s.len(),
{
    if s.len() != 0 {
        lemma_split_len(s.drop_first(), sep);
    }
}

/// Separator-free text is a single piece.
pub proof fn lemma_split_no_sep(a: Seq<char>, sep: char)
    requires
        forall|i: int| 0 <= i < a.len() ==> a[i] != sep,
    ensures
        spec_split(a, sep) == seq![a],
    decreases a.len(),
{
    if a.len() == 0 {
        assert(a =~= Seq::<char>::empty());
    } else {
        let tail = a.drop_first();
        assert(forall|i: int| 0 <= i < tail.len() ==> tail[i] == a[i + 1] && a[i + 1] != sep);
        lemma_split_no_sep(tail, sep);
        lemma_split_len(tail, sep);
        let rest = spec_split(tail, sep);
        assert(rest[0] == tail);
        assert(seq![a[0]] + tail =~= a);
        assert(rest.drop_first() =~= Seq::<Seq<char>>::empty());
        assert(seq![seq![a[0]] + rest[0]] + rest.drop_first() =~= seq![a]);
    }
}

/// The split of text that begins with a separator-free piece, a separator,
/// and a remainder: the piece, then the remainder's split.
pub proof fn lemma_split_at_sep(a: Seq<char>, y: Seq<char>, sep: char)
    requires
        forall|i: int| 0 <= i < a.len() ==> a[i] != sep,
    ensures
        spec_split(a + seq![sep] + y, sep) == seq![a] + spec_split(y, sep),
    decreases a.len(),
{
    let s = a + seq![sep] + y;
    if a.len() == 0 {
        assert(s[0] == sep);
        assert(s.drop_first() =~= y);
        assert(a =~= Seq::<char>::empty());
        assert(seq![Seq::<char>::empty()] + spec_split(y, sep) =~= seq![a] + spec_split(y, sep));
    } else {
        let tail = a.drop_first();
        assert(forall|i: int| 0 <= i < tail.len() ==> tail[i] == a[i + 1] && a[i + 1] != sep);
        assert(s[0] == a[0]);
        assert(s.drop_first() =~= tail + seq![sep] + y);
        lemma_split_at_sep(tail, y, sep);
        let rest = spec_split(s.drop_first(), sep);
        assert(rest == seq![tail] + spec_split(y, sep));
        assert(rest[0] == tail);
        assert(seq![a[0]] + rest[0] =~= a);
        assert(rest.drop_first() =~= spec_split(y, sep));
        assert(seq![seq![a[0]] + rest[0]] + rest.drop_first() =~= seq![a] + spec_split(y, sep));
    }
}

/// Splits text at every occurrence of the separator: one piece more than
/// there are separators, in order, each separator-free.
pub fn split_str(s: &str, sep: char) -> (r: Vec<String>)
    ensures
        r.deep_view() == spec_split(s@, sep),
{
    let n = s.unicode_len();
    let mut out: Vec<String> = Vec::new();
    let mut piece_start: usize = 0;
    let mut i: usize = 0;
    proof {
        assert(s@.skip(0) =~= s@);
        assert(out.deep_view() + spec_split(s@, sep) =~= spec_split(s@, sep));
    }
    while i < n
        invariant
            piece_start <= i <= n,
            n == s@.len(),
            forall|t: int| piece_start <= t < i ==> s@[t] != sep,
            spec_split(s@, sep) == out.deep_view() + spec_split(s@.skip(piece_start as int), sep),
        decreases n - i,
    {
        if s.get_char(i) == sep {
            let ghost pre = out.deep_view();
            let ghost piece_spec = s@.subrange(piece_start as int, i as int);
            let piece = s.substring_char(piece_start, i).to_owned();
            out.push(piece);
            proof {
                assert(out.deep_view() =~~= pre.push(piece_spec));
                assert(s@.skip(piece_start as int) =~= piece_spec + seq![sep] + s@.skip(
                    i + 1 as int,
                ));
                lemma_split_at_sep(piece_spec, s@.skip(i + 1 as int), sep);
                assert(pre + (seq![piece_spec] + spec_split(s@.skip(i + 1 as int), sep))
                    =~= pre.push(piece_spec) + spec_split(s@.skip(i + 1 as int), sep));
            }
            piece_start = i + 1;
        }
        i += 1;
    }
    let ghost pre = out.deep_view();
    let ghost piece_spec = s@.subrange(piece_start as int, n as int);
    let piece = s.substring_char(piece_start, n).to_owned();
    out.push(piece);
    proof {
        assert(out.deep_view() =~~= pre.push(piece_spec));
        assert(s@.skip(piece_start as int) =~= piece_spec);
        lemma_split_no_sep(piece_spec, sep);
        assert(pre + seq![piece_spec] =~= pre.push(piece_spec));
    }
    out
}

} // verus!

//! Text primitives over `Seq<char>`: Unicode white space, trimming, splitting
//! into pieces, lines and words, and decimal rendering of small numbers.

use vstd::prelude::*;

verus! {

/// `std::string::String::push`: appends one character at the end.
#[verifier::external_body]
pub(crate) fn push_char(s: &mut String, c: char)
    ensures
        final(s)@ == old(s)@.push(c),
{
    s.push(c);
}

/// The characters of `s`, in order, as a vector.
pub fn chars_of(s: &str) -> (res: Vec<char>)
    ensures
        res@ == s@,
{
    let mut res: Vec<char> = Vec::new();
    for c in it: s.chars()
        invariant
            res@ == it.seq().take(it.index() as int),
    {
        res.push(c);
    }
    res
}


/// Unicode `White_Space`, the set that `char::is_whitespace` documents:
/// U+0009..U+000D, U+0020, U+0085, U+00A0, U+1680, U+2000..U+200A, U+2028,
/// U+2029, U+202F, U+205F and U+3000.
pub open spec fn is_white_space(c: char) -> bool {
    let u = c as u32;
    ||| 0x9 <= u <= 0xd
    ||| u == 0x20
    ||| u == 0x85
    ||| u == 0xa0
    ||| u == 0x1680
    ||| 0x2000 <= u <= 0x200a
    ||| u == 0x2028
    ||| u == 0x2029
    ||| u == 0x202f
    ||| u == 0x205f
    ||| u == 0x3000
}

/// Whether `c` is Unicode white space.
pub fn white_space(c: char) -> (res: bool)
    ensures
        res == is_white_space(c),
{
    let u = c as u32;
    (0x9 <= u && u <= 0xd) || u == 0x20 || u == 0x85 || u == 0xa0 || u == 0x1680 || (0x2000 <= u
        && u <= 0x200a) || u == 0x2028 || u == 0x2029 || u == 0x202f || u == 0x205f || u == 0x3000
}

/// `s` without its leading white space.
pub open spec fn trim_start(s: Seq<char>) -> Seq<char>
    decreases s.len(),
{
    if s.len() > 0 && is_white_space(s[0]) {
        trim_start(s.drop_first())
    } else {
        s
    }
}

/// `s` without its trailing white space.
pub open spec fn trim_end(s: Seq<char>) -> Seq<char>
    decreases s.len(),
{
    if s.len() > 0 && is_white_space(s.last()) {
        trim_end(s.drop_last())
    } else {
        s
    }
}

/// `s` without leading and trailing white space, as `str::trim` gives it.
pub open spec fn trimmed(s: Seq<char>) -> Seq<char> {
    trim_end(trim_start(s))
}

/// The characters `s[from..to]` as a new string.
pub fn substring(s: &Vec<char>, from: usize, to: usize) -> (res: String)
    requires
        from <= to <= s.len(),
    ensures
        res@ == s@.subrange(from as int, to as int),
{
    let mut res = String::new();
    let mut i = from;
    while i < to
        invariant
            from <= i <= to <= s.len(),
            res@ == s@.subrange(from as int, i as int),
        decreases to - i,
    {
        push_char(&mut res, s[i]);
        i = i + 1;
        assert(res@ =~= s@.subrange(from as int, i as int));
    }
    res
}

/// `s` with white space removed at both ends.
pub fn trim(s: &str) -> (res: String)
    ensures
        res@ == trimmed(s@),
{
    let cs = chars_of(s);
    let n = cs.len();
    let mut i: usize = 0;
    assert(cs@.subrange(0, n as int) =~= cs@);
    while i < n && white_space(cs[i])
        invariant
            i <= n == cs@.len(),
            trim_start(cs@) == trim_start(cs@.subrange(i as int, n as int)),
        decreases n - i,
    {
        assert(cs@.subrange(i as int, n as int).drop_first() =~= cs@.subrange(i + 1, n as int));
        i = i + 1;
    }
    assert(trim_start(cs@) == cs@.subrange(i as int, n as int));
    let mut j: usize = n;
    assert(trimmed(s@) == trim_end(cs@.subrange(i as int, n as int)));
    while j > i && white_space(cs[j - 1])
        invariant
            i <= j <= n == cs@.len(),
            trim_end(cs@.subrange(i as int, n as int)) == trim_end(cs@.subrange(i as int, j as int)),
        decreases j,
    {
        assert(cs@.subrange(i as int, j as int).drop_last() =~= cs@.subrange(i as int, j - 1));
        j = j - 1;
    }
    substring(&cs, i, j)
}


/// What separates the pieces of a string.
#[derive(Clone, Copy, Debug, PartialEq, Eq)]
pub enum Separator {
    /// One given character, as in `str::split(c)`.
    Char(char),
    /// Any Unicode white space character.
    WhiteSpace,
}

/// Whether `c` separates pieces under `sep`.
pub open spec fn separates(sep: Separator, c: char) -> bool {
    match sep {
        Separator::Char(d) => c == d,
        Separator::WhiteSpace => is_white_space(c),
    }
}

/// The pieces between separators, empty ones included: `n` separators give
/// `n + 1` pieces.
pub open spec fn split_by(s: Seq<char>, sep: Separator) -> Seq<Seq<char>>
    decreases s.len(),
{
    if s.len() == 0 {
        seq![Seq::empty()]
    } else {
        let prev = split_by(s.drop_last(), sep);
        if separates(sep, s.last()) {
            prev.push(Seq::empty())
        } else {
            prev.update(prev.len() - 1, prev.last().push(s.last()))
        }
    }
}

/// There is always at least one piece.
pub proof fn lemma_split_by_nonempty(s: Seq<char>, sep: Separator)
    ensures
        split_by(s, sep).len() >= 1,
    decreases s.len(),
{
    if s.len() > 0 {
        lemma_split_by_nonempty(s.drop_last(), sep);
    }
}

/// A piece that holds at least one character.
pub open spec fn is_word(w: Seq<char>) -> bool {
    w.len() > 0
}

/// The maximal runs of non-white-space characters, as `str::split_whitespace`
/// gives them.
pub open spec fn words(s: Seq<char>) -> Seq<Seq<char>> {
    split_by(s, Separator::WhiteSpace).filter(|w: Seq<char>| is_word(w))
}

/// Whether `c` separates pieces under `sep`.
pub fn is_separator(sep: Separator, c: char) -> (res: bool)
    ensures
        res == separates(sep, c),
{
    match sep {
        Separator::Char(d) => c == d,
        Separator::WhiteSpace => white_space(c),
    }
}

/// The pieces of `s` between separators.
pub fn split(s: &str, sep: Separator) -> (res: Vec<String>)
    ensures
        res.deep_view() == split_by(s@, sep),
{
    let cs = chars_of(s);
    let n = cs.len();
    let mut pieces: Vec<String> = Vec::new();
    let mut cur = String::new();
    let mut i: usize = 0;
    assert(cs@.take(0) =~= Seq::<char>::empty());
    assert(pieces.deep_view().push(cur@) =~= split_by(cs@.take(0), sep));
    while i < n
        invariant
            i <= n == cs@.len(),
            cs@ == s@,
            pieces.deep_view().push(cur@) == split_by(cs@.take(i as int), sep),
        decreases n - i,
    {
        let c = cs[i];
        let ghost before = pieces.deep_view().push(cur@);
        assert(cs@.take(i + 1).drop_last() =~= cs@.take(i as int));
        assert(cs@.take(i + 1).last() == c);
        if is_separator(sep, c) {
            pieces.push(cur);
            cur = String::new();
            assert(pieces.deep_view().push(cur@) =~= before.push(Seq::empty()));
        } else {
            push_char(&mut cur, c);
            assert(pieces.deep_view().push(cur@) =~= before.update(
                before.len() - 1,
                before.last().push(c),
            ));
        }
        i = i + 1;
    }
    assert(cs@.take(n as int) =~= cs@);
    pieces.push(cur);
    pieces
}

/// The non-empty pieces of `s` between white space.
pub fn split_whitespace(s: &str) -> (res: Vec<String>)
    ensures
        res.deep_view() == words(s@),
{
    let pieces = split(s, Separator::WhiteSpace);
    let ghost all = pieces.deep_view();
    let mut res: Vec<String> = Vec::new();
    let mut k: usize = 0;
    assert(all.take(0) =~= Seq::<Seq<char>>::empty());
    proof {
        reveal(Seq::filter);
    }
    assert(res.deep_view() =~= all.take(0).filter(|w: Seq<char>| is_word(w)));
    while k < pieces.len()
        invariant
            k <= pieces.len(),
            all == pieces.deep_view(),
            all == split_by(s@, Separator::WhiteSpace),
            res.deep_view() == all.take(k as int).filter(|w: Seq<char>| is_word(w)),
        decreases pieces.len() - k,
    {
        let ghost prev = res.deep_view();
        assert(all.take(k + 1) =~= all.take(k as int).push(all[k as int]));
        proof {
            all.take(k as int).lemma_filter_push(all[k as int], |w: Seq<char>| is_word(w));
        }
        if !pieces[k].as_str().is_empty() {
            res.push(pieces[k].clone());
            assert(res.deep_view() =~= prev.push(all[k as int]));
        }
        k = k + 1;
    }
    assert(all.take(pieces.len() as int) =~= all);
    res
}

/// `l` without one trailing carriage return.
pub open spec fn strip_cr(l: Seq<char>) -> Seq<char> {
    if l.len() > 0 && l.last() == '\r' {
        l.drop_last()
    } else {
        l
    }
}

/// The lines of `s`, as `str::lines` gives them: split at `\n`, a `\r` just
/// before a `\n` dropped, and no line after a final `\n`.
pub open spec fn lines_of(s: Seq<char>) -> Seq<Seq<char>> {
    let pieces = split_by(s, Separator::Char('\n'));
    let kept = if pieces.last().len() == 0 {
        pieces.drop_last()
    } else {
        pieces
    };
    Seq::new(
        kept.len(),
        |i: int|
            if i < pieces.len() - 1 {
                strip_cr(kept[i])
            } else {
                kept[i]
            },
    )
}

/// The lines of `s`.
pub fn lines(s: &str) -> (res: Vec<String>)
    ensures
        res.deep_view() == lines_of(s@),
{
    let pieces = split(s, Separator::Char('\n'));
    let ghost all = pieces.deep_view();
    proof {
        lemma_split_by_nonempty(s@, Separator::Char('\n'));
    }
    let total = pieces.len();
    let kept = if pieces[total - 1].as_str().is_empty() {
        total - 1
    } else {
        total
    };
    let mut res: Vec<String> = Vec::new();
    let mut k: usize = 0;
    while k < kept
        invariant
            k <= kept <= total == pieces.len() == all.len(),
            all == pieces.deep_view(),
            all == split_by(s@, Separator::Char('\n')),
            kept == total - 1 <==> all.last().len() == 0,
            res.deep_view() =~= lines_of(s@).take(k as int),
        decreases kept - k,
    {
        let ghost prev = res.deep_view();
        let piece = &pieces[k];
        let line = if k + 1 < total {
            let cs = chars_of(piece.as_str());
            let m = cs.len();
            if m > 0 && cs[m - 1] == '\r' {
                substring(&cs, 0, m - 1)
            } else {
                piece.clone()
            }
        } else {
            piece.clone()
        };
        res.push(line);
        assert(res.deep_view() =~= prev.push(lines_of(s@)[k as int]));
        k = k + 1;
    }
    res
}


/// The decimal digit character for `d < 10`.
pub open spec fn digit_char(d: nat) -> char {
    seq!['0', '1', '2', '3', '4', '5', '6', '7', '8', '9'][d as int]
}

/// The decimal rendering of `n`, without sign or leading zeros, as `{}`
/// formats an unsigned integer.
pub open spec fn decimal(n: nat) -> Seq<char>
    decreases n,
{
    if n < 10 {
        seq![digit_char(n)]
    } else {
        decimal(n / 10).push(digit_char(n % 10))
    }
}

fn digit(d: u8) -> (c: char)
    requires
        d < 10,
    ensures
        c == digit_char(d as nat),
{
    match d {
        0 => '0',
        1 => '1',
        2 => '2',
        3 => '3',
        4 => '4',
        5 => '5',
        6 => '6',
        7 => '7',
        8 => '8',
        _ => '9',
    }
}

/// Appends the decimal rendering of `n` to `s`.
pub fn push_decimal(s: &mut String, n: u8)
    ensures
        final(s)@ == old(s)@ + decimal(n as nat),
{
    let ghost start = s@;
    if n >= 100 {
        push_char(s, digit(n / 100));
    }
    if n >= 10 {
        push_char(s, digit((n / 10) % 10));
    }
    push_char(s, digit(n % 10));
    proof {
        let m = n as nat;
        if m >= 100 {
            assert(decimal(m / 100) == seq![digit_char(m / 100)]);
            assert(decimal(m / 10) == decimal(m / 100).push(digit_char((m / 10) % 10)));
        } else if m >= 10 {
            assert(decimal(m / 10) == seq![digit_char(m / 10)]);
        }
        assert(s@ =~= start + decimal(m));
    }
}

/// The characters of `parts`, with one space between neighbours, as
/// `join(" ")` gives them.
pub open spec fn join_with_space(parts: Seq<Seq<char>>) -> Seq<char>
    decreases parts.len(),
{
    if parts.len() == 0 {
        Seq::empty()
    } else if parts.len() == 1 {
        parts[0]
    } else {
        join_with_space(parts.drop_last()) + seq![' '] + parts.last()
    }
}

/// `parts[from..]` joined with single spaces.
pub fn join_from(parts: &Vec<String>, from: usize) -> (res: String)
    requires
        from <= parts.len(),
    ensures
        res@ == join_with_space(parts.deep_view().skip(from as int)),
{
    let ghost all = parts.deep_view();
    let mut res = String::new();
    let mut k = from;
    assert(all.subrange(from as int, from as int) =~= Seq::<Seq<char>>::empty());
    while k < parts.len()
        invariant
            from <= k <= parts.len(),
            all == parts.deep_view(),
            res@ == join_with_space(all.subrange(from as int, k as int)),
        decreases parts.len() - k,
    {
        let ghost prev = all.subrange(from as int, k as int);
        assert(all.subrange(from as int, k + 1).drop_last() =~= prev);
        if k > from {
            push_char(&mut res, ' ');
        }
        res.append(parts[k].as_str());
        k = k + 1;
        assert(res@ =~= join_with_space(all.subrange(from as int, k as int)));
    }
    assert(all.subrange(from as int, parts.len() as int) =~= all.skip(from as int));
    res
}


/// Whether `a` and `b` hold the same characters.
pub fn same_text(a: &str, b: &str) -> (res: bool)
    ensures
        res == (a@ == b@),
{
    let x = chars_of(a);
    let y = chars_of(b);
    if x.len() != y.len() {
        return false;
    }
    let mut i: usize = 0;
    while i < x.len()
        invariant
            i <= x.len() == y.len(),
            x@ == a@,
            y@ == b@,
            forall|j: int| 0 <= j < i ==> x@[j] == y@[j],
        decreases x.len() - i,
    {
        if x[i] != y[i] {
            return false;
        }
        i = i + 1;
    }
    assert(x@ =~= y@);
    true
}


/// No character of `w` separates pieces under `sep`.
pub open spec fn free_of(w: Seq<char>, sep: Separator) -> bool {
    forall|i: int| 0 <= i < w.len() ==> !separates(sep, #[trigger] w[i])
}

/// Splitting at a separator that stands between `x` and `y` gives the pieces
/// of `x` followed by those of `y`.
pub proof fn lemma_split_by_around(x: Seq<char>, c: char, y: Seq<char>, sep: Separator)
    requires
        separates(sep, c),
    ensures
        split_by(x.push(c) + y, sep) == split_by(x, sep) + split_by(y, sep),
    decreases y.len(),
{
    let s = x.push(c) + y;
    if y.len() == 0 {
        assert(s =~= x.push(c));
        assert(s.drop_last() =~= x);
        assert(split_by(s, sep) =~= split_by(x, sep) + split_by(y, sep));
    } else {
        assert(s.drop_last() =~= x.push(c) + y.drop_last());
        assert(s.last() == y.last());
        lemma_split_by_around(x, c, y.drop_last(), sep);
        lemma_split_by_nonempty(y.drop_last(), sep);
        assert(split_by(s, sep) =~= split_by(x, sep) + split_by(y, sep));
    }
}

/// A string without separators is a single piece.
pub proof fn lemma_split_by_single(w: Seq<char>, sep: Separator)
    requires
        free_of(w, sep),
    ensures
        split_by(w, sep) == seq![w],
    decreases w.len(),
{
    if w.len() > 0 {
        assert(!separates(sep, w[w.len() - 1]));
        lemma_split_by_single(w.drop_last(), sep);
        assert(w.drop_last().push(w.last()) =~= w);
        assert(split_by(w, sep) =~= seq![w]);
    } else {
        assert(w =~= Seq::<char>::empty());
        assert(split_by(w, sep) =~= seq![w]);
    }
}

/// No piece holds a separator.
pub proof fn lemma_split_by_pieces_free(s: Seq<char>, sep: Separator)
    ensures
        forall|k: int|
            0 <= k < split_by(s, sep).len() ==> free_of(#[trigger] split_by(s, sep)[k], sep),
    decreases s.len(),
{
    if s.len() > 0 {
        lemma_split_by_pieces_free(s.drop_last(), sep);
        lemma_split_by_nonempty(s.drop_last(), sep);
        let prev = split_by(s.drop_last(), sep);
        let cur = split_by(s, sep);
        assert forall|k: int| 0 <= k < cur.len() implies free_of(#[trigger] cur[k], sep) by {
            if k < prev.len() - 1 {
                assert(cur[k] == prev[k]);
            } else if k == prev.len() - 1 {
                if !separates(sep, s.last()) {
                    let w = prev.last().push(s.last());
                    assert(cur[k] == w);
                    assert(free_of(prev[k], sep));
                    assert forall|i: int| 0 <= i < w.len() implies !separates(sep, #[trigger] w[i]) by {
                        if i < w.len() - 1 {
                            assert(w[i] == prev[k][i]);
                        }
                    }
                } else {
                    assert(cur[k] == prev[k]);
                }
            } else {
                assert(cur[k] =~= Seq::<char>::empty());
            }
        }
    }
}

/// Keeping the elements that all pass keeps them all.
pub proof fn lemma_filter_all(s: Seq<Seq<char>>, pred: spec_fn(Seq<char>) -> bool)
    requires
        forall|k: int| 0 <= k < s.len() ==> pred(#[trigger] s[k]),
    ensures
        s.filter(pred) == s,
    decreases s.len(),
{
    reveal(Seq::filter);
    if s.len() > 0 {
        lemma_filter_all(s.drop_last(), pred);
        assert(s.drop_last().push(s.last()) =~= s);
    }
}

/// Words, with single spaces between them, split back into those words.
pub proof fn lemma_split_join(parts: Seq<Seq<char>>)
    requires
        parts.len() >= 1,
        forall|k: int| 0 <= k < parts.len() ==> free_of(#[trigger] parts[k], Separator::WhiteSpace),
    ensures
        split_by(join_with_space(parts), Separator::WhiteSpace) == parts,
    decreases parts.len(),
{
    if parts.len() == 1 {
        assert(free_of(parts[0], Separator::WhiteSpace));
        lemma_split_by_single(parts[0], Separator::WhiteSpace);
        assert(seq![parts[0]] =~= parts);
    } else {
        let d = parts.drop_last();
        assert forall|k: int| 0 <= k < d.len() implies free_of(#[trigger] d[k], Separator::WhiteSpace) by {
            assert(d[k] == parts[k]);
        }
        lemma_split_join(d);
        assert(is_white_space(' '));
        assert(join_with_space(parts) =~= join_with_space(d).push(' ') + parts.last());
        lemma_split_by_around(join_with_space(d), ' ', parts.last(), Separator::WhiteSpace);
        assert(free_of(parts[parts.len() - 1], Separator::WhiteSpace));
        lemma_split_by_single(parts.last(), Separator::WhiteSpace);
        assert(d + seq![parts.last()] =~= parts);
    }
}

/// Every word is non-empty and free of white space.
pub proof fn lemma_words_are_words(s: Seq<char>)
    ensures
        forall|k: int|
            0 <= k < words(s).len() ==> is_word(#[trigger] words(s)[k]) && free_of(
                words(s)[k],
                Separator::WhiteSpace,
            ),
{
    let pieces = split_by(s, Separator::WhiteSpace);
    let pred = |w: Seq<char>| is_word(w);
    lemma_split_by_pieces_free(s, Separator::WhiteSpace);
    assert forall|k: int| 0 <= k < words(s).len() implies is_word(#[trigger] words(s)[k]) && free_of(
        words(s)[k],
        Separator::WhiteSpace,
    ) by {
        pieces.lemma_filter_pred(pred, k);
        pieces.lemma_filter_contains_rev(pred, words(s)[k]);
    }
}


/// The number that the decimal digits `ds` denote, read left to right.
pub open spec fn digits_value(ds: Seq<char>) -> int
    decreases ds.len(),
{
    if ds.len() == 0 {
        0
    } else {
        10 * digits_value(ds.drop_last()) + (ds.last() as int - '0' as int)
    }
}

proof fn lemma_digit_value(d: nat)
    requires
        d < 10,
    ensures
        digit_char(d) as int - '0' as int == d,
        '0' <= digit_char(d) <= '9',
{
    let digits = seq!['0', '1', '2', '3', '4', '5', '6', '7', '8', '9'];
    assert(digit_char(d) == digits[d as int]);
    if d == 0 {
        assert(digits[0] == '0');
    } else if d == 1 {
        assert(digits[1] == '1');
    } else if d == 2 {
        assert(digits[2] == '2');
    } else if d == 3 {
        assert(digits[3] == '3');
    } else if d == 4 {
        assert(digits[4] == '4');
    } else if d == 5 {
        assert(digits[5] == '5');
    } else if d == 6 {
        assert(digits[6] == '6');
    } else if d == 7 {
        assert(digits[7] == '7');
    } else if d == 8 {
        assert(digits[8] == '8');
    } else {
        assert(digits[9] == '9');
    }
}

/// The decimal rendering of `n` reads back as `n`, and it is made of decimal
/// digits only, with no leading zero unless `n` is zero.
pub proof fn lemma_decimal_reads_back(n: nat)
    ensures
        digits_value(decimal(n)) == n,
        forall|i: int| 0 <= i < decimal(n).len() ==> '0' <= #[trigger] decimal(n)[i] <= '9',
        decimal(n).len() >= 1,
        decimal(n)[0] == '0' ==> n == 0,
    decreases n,
{
    if n < 10 {
        lemma_digit_value(n);
        assert(decimal(n).drop_last() =~= Seq::<char>::empty());
        assert(digits_value(decimal(n).drop_last()) == 0);
        assert(decimal(n).last() == digit_char(n));
        if n != 0 {
            assert(digit_char(n) != '0');
        }
    } else {
        lemma_decimal_reads_back(n / 10);
        let d = n % 10;
        lemma_digit_value(d);
        assert(decimal(n).drop_last() =~= decimal(n / 10));
        assert(decimal(n).last() == digit_char(d));
        assert(digits_value(decimal(n)) == 10 * digits_value(decimal(n / 10)) + d);
        assert(10 * (n / 10) + n % 10 == n);
        assert forall|i: int| 0 <= i < decimal(n).len() implies '0' <= #[trigger] decimal(n)[i] <= '9' by {
            if i < decimal(n).len() - 1 {
                assert(decimal(n)[i] == decimal(n / 10)[i]);
            }
        }
        assert(decimal(n)[0] == decimal(n / 10)[0]);
    }
}

/// Trimming keeps a contiguous part of `s` and removes only white space: it
/// neither starts nor ends with white space, and all that was cut off at
/// either end is white space.
pub proof fn lemma_trim_cuts_only_white_space(s: Seq<char>)
    ensures
        exists|a: int, b: int|
            #![trigger s.subrange(a, b)]
            0 <= a <= b <= s.len() && trimmed(s) == s.subrange(a, b) && (forall|i: int|
                0 <= i < a ==> is_white_space(#[trigger] s[i])) && (forall|i: int|
                b <= i < s.len() ==> is_white_space(#[trigger] s[i])),
        trimmed(s).len() > 0 ==> !is_white_space(trimmed(s)[0]) && !is_white_space(
            trimmed(s).last(),
        ),
{
    let (a, b) = lemma_trim_bounds(s);
    assert(trimmed(s) == s.subrange(a, b));
}

proof fn lemma_trim_start_bounds(s: Seq<char>) -> (a: int)
    ensures
        0 <= a <= s.len(),
        trim_start(s) == s.subrange(a, s.len() as int),
        forall|i: int| 0 <= i < a ==> is_white_space(#[trigger] s[i]),
        a < s.len() ==> !is_white_space(s[a]),
    decreases s.len(),
{
    if s.len() > 0 && is_white_space(s[0]) {
        let a = lemma_trim_start_bounds(s.drop_first());
        assert(s.drop_first().subrange(a, s.len() - 1) =~= s.subrange(a + 1, s.len() as int));
        assert forall|i: int| 0 <= i < a + 1 implies is_white_space(#[trigger] s[i]) by {
            if i > 0 {
                assert(s[i] == s.drop_first()[i - 1]);
            }
        }
        if a + 1 < s.len() {
            assert(s[a + 1] == s.drop_first()[a]);
        }
        a + 1
    } else {
        assert(s.subrange(0, s.len() as int) =~= s);
        0
    }
}

proof fn lemma_trim_end_bounds(s: Seq<char>) -> (b: int)
    ensures
        0 <= b <= s.len(),
        trim_end(s) == s.subrange(0, b),
        forall|i: int| b <= i < s.len() ==> is_white_space(#[trigger] s[i]),
        b > 0 ==> !is_white_space(s[b - 1]),
    decreases s.len(),
{
    if s.len() > 0 && is_white_space(s.last()) {
        let b = lemma_trim_end_bounds(s.drop_last());
        assert(s.drop_last().subrange(0, b) =~= s.subrange(0, b));
        assert forall|i: int| b <= i < s.len() implies is_white_space(#[trigger] s[i]) by {
            if i < s.len() - 1 {
                assert(s[i] == s.drop_last()[i]);
            }
        }
        if b > 0 {
            assert(s[b - 1] == s.drop_last()[b - 1]);
        }
        b
    } else {
        assert(s.subrange(0, s.len() as int) =~= s);
        s.len() as int
    }
}

proof fn lemma_trim_bounds(s: Seq<char>) -> (ab: (int, int))
    ensures
        0 <= ab.0 <= ab.1 <= s.len(),
        trimmed(s) == s.subrange(ab.0, ab.1),
        forall|i: int| 0 <= i < ab.0 ==> is_white_space(#[trigger] s[i]),
        forall|i: int| ab.1 <= i < s.len() ==> is_white_space(#[trigger] s[i]),
        ab.0 < ab.1 ==> !is_white_space(s[ab.0]) && !is_white_space(s[ab.1 - 1]),
{
    let a = lemma_trim_start_bounds(s);
    let t = s.subrange(a, s.len() as int);
    let b = lemma_trim_end_bounds(t);
    assert(t.subrange(0, b) =~= s.subrange(a, a + b));
    assert forall|i: int| a + b <= i < s.len() implies is_white_space(#[trigger] s[i]) by {
        assert(s[i] == t[i - a]);
    }
    if b > 0 {
        assert(s[a] == t[0]);
        assert(s[a + b - 1] == t[b - 1]);
        if b < t.len() {
        }
    }
    (a, a + b)
}

} // verus!

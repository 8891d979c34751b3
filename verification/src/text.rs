//! Character-level helpers on strings: blanks, search and replace, splitting and
//! joining, decimal numerals, trimming and the lexicographic order.

use vstd::prelude::*;
use vstd::string::*;

verus! {

/// The characters of `s`, for constant-time indexing.
pub fn to_chars(s: &str) -> (out: Vec<char>)
    ensures
        out@ == s@,
{
    let mut out: Vec<char> = Vec::new();
    for c in it: s.chars()
        invariant
            out@ == it.seq().take(it.index() as int),
            it.seq() == s@,
    {
        out.push(c);
        assert(out@ =~= it.seq().take(it.index() + 1));
    }
    assert(out@ =~= s@);
    out
}

/// Calls `String::push`, which appends the character to the end of the string.
#[verifier::external_body]
fn push_char(s: &mut String, c: char)
    ensures
        final(s)@ == old(s)@.push(c),
{
    s.push(c)
}

/// The string of the characters of `chars` from `from` up to `to`.
pub fn text_of(chars: &Vec<char>, from: usize, to: usize) -> (out: String)
    requires
        from <= to <= chars.len(),
    ensures
        out@ == chars@.subrange(from as int, to as int),
{
    let mut out = String::new();
    let mut i: usize = from;
    while i < to
        invariant
            from <= i <= to <= chars.len(),
            out@ == chars@.subrange(from as int, i as int),
        decreases to - i,
    {
        push_char(&mut out, chars[i]);
        i = i + 1;
        assert(out@ =~= chars@.subrange(from as int, i as int));
    }
    out
}

/// The sequence of `n` blanks.
pub open spec fn blanks(n: nat) -> Seq<char> {
    Seq::new(n, |i: int| ' ')
}

/// Builds a string of `n` blanks.
pub fn spaces(n: usize) -> (out: String)
    ensures
        out@ == blanks(n as nat),
{
    let mut out = String::new();
    let mut i: usize = 0;
    while i < n
        invariant
            i <= n,
            out@ == blanks(i as nat),
        decreases n - i,
    {
        proof {
            reveal_strlit(" ");
        }
        out.append(" ");
        i = i + 1;
        assert(out@ =~= blanks(i as nat));
    }
    out
}

/// The characters that count as white space: the code points with the Unicode
/// property `White_Space`.
pub open spec fn is_space(c: char) -> bool {
    let u = c as u32;
    ||| 0x09 <= u <= 0x0D
    ||| u == 0x20
    ||| u == 0x85
    ||| u == 0xA0
    ||| u == 0x1680
    ||| 0x2000 <= u <= 0x200A
    ||| u == 0x2028
    ||| u == 0x2029
    ||| u == 0x202F
    ||| u == 0x205F
    ||| u == 0x3000
}

/// Tests whether `c` is white space.
pub fn char_is_space(c: char) -> (b: bool)
    ensures
        b == is_space(c),
{
    let u: u32 = c as u32;
    (0x09 <= u && u <= 0x0D) || u == 0x20 || u == 0x85 || u == 0xA0 || u == 0x1680 || (0x2000 <= u
        && u <= 0x200A) || u == 0x2028 || u == 0x2029 || u == 0x202F || u == 0x205F || u == 0x3000
}

/// Whether some character of `s` is white space.
pub open spec fn has_space(s: Seq<char>) -> bool {
    exists|i: int| 0 <= i < s.len() && is_space(#[trigger] s[i])
}

/// Tests whether `s` holds a white-space character.
pub fn contains_space(s: &str) -> (b: bool)
    ensures
        b == has_space(s@),
{
    let chars = to_chars(s);
    let mut i: usize = 0;
    while i < chars.len()
        invariant
            i <= chars.len(),
            chars@ == s@,
            forall|j: int| 0 <= j < i ==> !is_space(#[trigger] s@[j]),
        decreases chars.len() - i,
    {
        if char_is_space(chars[i]) {
            return true;
        }
        i = i + 1;
    }
    false
}

/// `s` without its leading and trailing white space.
pub open spec fn trimmed(s: Seq<char>) -> Seq<char>
    decreases s.len(),
{
    if s.len() == 0 {
        s
    } else if is_space(s.first()) {
        trimmed(s.drop_first())
    } else if is_space(s.last()) {
        trimmed(s.drop_last())
    } else {
        s
    }
}

/// Removes leading and trailing white space.
pub fn trim(s: &str) -> (out: String)
    ensures
        out@ == trimmed(s@),
{
    let chars = to_chars(s);
    let n = chars.len();
    let mut lo: usize = 0;
    assert(s@.subrange(0, n as int) =~= s@);
    while lo < n && char_is_space(chars[lo])
        invariant
            lo <= n,
            n == chars.len(),
            chars@ == s@,
            trimmed(s@) == trimmed(s@.subrange(lo as int, n as int)),
        decreases n - lo,
    {
        proof {
            let cur = s@.subrange(lo as int, n as int);
            assert(cur.drop_first() =~= s@.subrange(lo + 1, n as int));
        }
        lo = lo + 1;
    }
    let mut hi: usize = n;
    while lo < hi && char_is_space(chars[hi - 1])
        invariant
            lo <= hi <= n,
            n == chars.len(),
            chars@ == s@,
            lo < n ==> !is_space(s@[lo as int]),
            trimmed(s@) == trimmed(s@.subrange(lo as int, hi as int)),
        decreases hi - lo,
    {
        proof {
            let cur = s@.subrange(lo as int, hi as int);
            assert(cur.drop_last() =~= s@.subrange(lo as int, hi - 1));
        }
        hi = hi - 1;
    }
    s.substring_char(lo, hi).to_owned()
}

/// Whether `pat` stands in `hay` at position `at`.
pub open spec fn occurs_at(hay: Seq<char>, at: int, pat: Seq<char>) -> bool {
    0 <= at && at + pat.len() <= hay.len() && hay.subrange(at, at + pat.len()) == pat
}

/// Tests whether `pat` stands in `hay` at position `at`.
pub fn matches_at(hay: &Vec<char>, at: usize, pat: &Vec<char>) -> (b: bool)
    ensures
        b == occurs_at(hay@, at as int, pat@),
{
    if pat.len() > hay.len() || at > hay.len() - pat.len() {
        return false;
    }
    let mut k: usize = 0;
    while k < pat.len()
        invariant
            k <= pat.len(),
            at + pat.len() <= hay.len(),
            forall|j: int| 0 <= j < k ==> hay@[at + j] == pat@[j],
        decreases pat.len() - k,
    {
        if hay[at + k] != pat[k] {
            assert(hay@.subrange(at as int, at + pat.len())[k as int] != pat@[k as int]);
            return false;
        }
        k = k + 1;
    }
    assert(hay@.subrange(at as int, at + pat.len()) =~= pat@);
    true
}

/// `hay` with every occurrence of `pat` replaced by `rep`, the occurrences taken
/// from the left and not overlapping. An empty `pat` occurs nowhere.
pub open spec fn replaced(hay: Seq<char>, pat: Seq<char>, rep: Seq<char>) -> Seq<char>
    decreases hay.len(),
{
    if pat.len() == 0 || hay.len() < pat.len() {
        hay
    } else if occurs_at(hay, 0, pat) {
        rep + replaced(hay.skip(pat.len() as int), pat, rep)
    } else {
        seq![hay[0]] + replaced(hay.skip(1), pat, rep)
    }
}

/// Whether `pat` stands nowhere in `hay`.
pub open spec fn absent(hay: Seq<char>, pat: Seq<char>) -> bool {
    forall|i: int| !occurs_at(hay, i, pat)
}

/// Where `pat` occurs nowhere in `hay`, nothing is replaced.
pub proof fn lemma_replaced_absent(hay: Seq<char>, pat: Seq<char>, rep: Seq<char>)
    requires
        absent(hay, pat),
    ensures
        replaced(hay, pat, rep) == hay,
    decreases hay.len(),
{
    if pat.len() == 0 || hay.len() < pat.len() {
    } else {
        assert(!occurs_at(hay, 0, pat));
        let rest = hay.skip(1);
        assert forall|i: int| !occurs_at(rest, i, pat) by {
            if occurs_at(rest, i, pat) {
                assert(rest.subrange(i, i + pat.len()) =~= hay.subrange(i + 1, i + 1 + pat.len()));
                assert(occurs_at(hay, i + 1, pat));
            }
        }
        lemma_replaced_absent(rest, pat, rep);
        assert(seq![hay[0]] + rest =~= hay);
    }
}

/// Replaces every occurrence of `pat` in `hay` by `rep`.
pub fn replace_all(hay: &str, pat: &str, rep: &str) -> (out: String)
    ensures
        out@ == replaced(hay@, pat@, rep@),
{
    let h = to_chars(hay);
    let p = to_chars(pat);
    let n = h.len();
    let m = p.len();
    if m == 0 || n < m {
        return hay.to_owned();
    }
    let mut out = String::new();
    let mut start: usize = 0;
    let mut i: usize = 0;
    assert(hay@.skip(0) =~= hay@);
    assert(hay@.subrange(0, 0) =~= Seq::<char>::empty());
    while i <= n - m
        invariant
            0 < m <= n,
            n == h.len(),
            m == p.len(),
            h@ == hay@,
            p@ == pat@,
            start <= i <= n,
            replaced(hay@, pat@, rep@) == out@ + hay@.subrange(start as int, i as int) + replaced(
                hay@.skip(i as int),
                pat@,
                rep@,
            ),
        decreases n - i,
    {
        let ghost rest = hay@.skip(i as int);
        let hit = matches_at(&h, i, &p);
        proof {
            assert(rest.len() >= m);
            assert(rest.subrange(0, m as int) =~= hay@.subrange(i as int, i + m));
            assert(occurs_at(rest, 0, pat@) == hit);
        }
        if hit {
            out.append(hay.substring_char(start, i));
            out.append(rep);
            proof {
                assert(rest.skip(m as int) =~= hay@.skip(i + m));
                assert(hay@.subrange(i + m, i + m) =~= Seq::<char>::empty());
            }
            i = i + m;
            start = i;
        } else {
            proof {
                assert(rest.skip(1) =~= hay@.skip(i + 1));
                assert(hay@.subrange(start as int, i as int) + seq![rest[0]] =~= hay@.subrange(
                    start as int,
                    i + 1,
                ));
            }
            i = i + 1;
        }
    }
    proof {
        assert(hay@.subrange(start as int, i as int) + hay@.skip(i as int) =~= hay@.subrange(
            start as int,
            n as int,
        ));
    }
    out.append(hay.substring_char(start, n));
    out
}

/// `parts` written one after another with `sep` between neighbours.
pub open spec fn joined(parts: Seq<Seq<char>>, sep: Seq<char>) -> Seq<char>
    decreases parts.len(),
{
    if parts.len() == 0 {
        Seq::empty()
    } else if parts.len() == 1 {
        parts[0]
    } else {
        joined(parts.drop_last(), sep) + sep + parts.last()
    }
}

/// Joins `parts` with `sep` between neighbours.
pub fn join_with(parts: &Vec<String>, sep: &str) -> (out: String)
    ensures
        out@ == joined(parts.deep_view(), sep@),
{
    let mut out = String::new();
    let mut i: usize = 0;
    while i < parts.len()
        invariant
            i <= parts.len(),
            out@ == joined(parts.deep_view().take(i as int), sep@),
        decreases parts.len() - i,
    {
        proof {
            let next = parts.deep_view().take(i + 1);
            assert(next.drop_last() =~= parts.deep_view().take(i as int));
            assert(next.last() == parts@[i as int]@);
        }
        if i > 0 {
            out.append(sep);
        }
        out.append(parts[i].as_str());
        i = i + 1;
    }
    assert(parts.deep_view().take(parts.len() as int) =~= parts.deep_view());
    out
}

/// The pieces of `s` between the occurrences of `sep`; there is always at least
/// one piece, and a piece may be empty.
pub open spec fn pieces(s: Seq<char>, sep: char) -> Seq<Seq<char>>
    decreases s.len(),
{
    if s.len() == 0 {
        seq![Seq::empty()]
    } else {
        let rest = pieces(s.drop_first(), sep);
        if s[0] == sep {
            seq![Seq::<char>::empty()] + rest
        } else {
            rest.update(0, seq![s[0]] + rest[0])
        }
    }
}

/// A sequence without `sep` is a single piece.
pub proof fn lemma_pieces_plain(s: Seq<char>, sep: char)
    requires
        !s.contains(sep),
    ensures
        pieces(s, sep) == seq![s],
    decreases s.len(),
{
    if s.len() == 0 {
        assert(s =~= Seq::<char>::empty());
    } else {
        assert forall|j: int| 0 <= j < s.drop_first().len() implies s.drop_first()[j] != sep by {
            assert(s.contains(s[j + 1]));
        }
        lemma_pieces_plain(s.drop_first(), sep);
        assert(s.contains(s[0]));
        assert(seq![s[0]] + s.drop_first() =~= s);
        assert(seq![s.drop_first()].update(0, s) =~= seq![s]);
    }
}

/// A piece that ends at the first `sep` comes first, then the pieces of the rest.
pub proof fn lemma_pieces_cut(head: Seq<char>, tail: Seq<char>, sep: char)
    requires
        !head.contains(sep),
    ensures
        pieces(head + seq![sep] + tail, sep) == seq![head] + pieces(tail, sep),
    decreases head.len(),
{
    let whole = head + seq![sep] + tail;
    if head.len() == 0 {
        assert(whole.drop_first() =~= tail);
        assert(head =~= Seq::<char>::empty());
    } else {
        assert forall|j: int| 0 <= j < head.drop_first().len() implies head.drop_first()[j]
            != sep by {
            assert(head.contains(head[j + 1]));
        }
        lemma_pieces_cut(head.drop_first(), tail, sep);
        assert(whole.drop_first() =~= head.drop_first() + seq![sep] + tail);
        assert(head.contains(head[0]));
        assert(seq![head[0]] + head.drop_first() =~= head);
        assert((seq![head.drop_first()] + pieces(tail, sep)).update(0, head) =~= seq![head]
            + pieces(tail, sep));
    }
}

/// Splits `s` at every `sep`.
pub fn split_on(s: &str, sep: char) -> (out: Vec<String>)
    ensures
        out.deep_view() == pieces(s@, sep),
{
    let chars = to_chars(s);
    let n = chars.len();
    let mut out: Vec<String> = Vec::new();
    let mut start: usize = 0;
    let mut i: usize = 0;
    assert(s@.skip(0) =~= s@);
    while i < n
        invariant
            start <= i <= n,
            n == chars.len(),
            chars@ == s@,
            forall|j: int| start <= j < i ==> s@[j] != sep,
            pieces(s@, sep) == out.deep_view() + pieces(s@.skip(start as int), sep),
        decreases n - i,
    {
        if chars[i] == sep {
            let piece = s.substring_char(start, i).to_owned();
            proof {
                let head = s@.subrange(start as int, i as int);
                let tail = s@.skip(i + 1);
                assert(s@.skip(start as int) =~= head + seq![sep] + tail);
                lemma_pieces_cut(head, tail, sep);
                assert(out.deep_view().push(piece@) + pieces(tail, sep) =~= out.deep_view() + (
                seq![head] + pieces(tail, sep)));
            }
            let ghost before = out.deep_view();
            out.push(piece);
            assert(out.deep_view() =~= before.push(piece@));
            start = i + 1;
        }
        i = i + 1;
    }
    let last = s.substring_char(start, n).to_owned();
    proof {
        assert(s@.skip(start as int) =~= s@.subrange(start as int, n as int));
        lemma_pieces_plain(s@.skip(start as int), sep);
    }
    let ghost before = out.deep_view();
    out.push(last);
    assert(out.deep_view() =~= before.push(last@));
    assert(before.push(last@) =~= before + seq![last@]);
    out
}

/// Joining the pieces of `s` with the separator gives `s` back, and no piece
/// holds the separator.
pub proof fn lemma_pieces_join(s: Seq<char>, sep: char)
    ensures
        pieces(s, sep).len() >= 1,
        joined(pieces(s, sep), seq![sep]) == s,
        forall|k: int| 0 <= k < pieces(s, sep).len() ==> !(#[trigger] pieces(s, sep)[k]).contains(sep),
    decreases s.len(),
{
    if s.len() == 0 {
        assert(joined(seq![Seq::<char>::empty()], seq![sep]) =~= s);
    } else {
        let rest = pieces(s.drop_first(), sep);
        lemma_pieces_join(s.drop_first(), sep);
        if s[0] == sep {
            let all = seq![Seq::<char>::empty()] + rest;
            lemma_joined_front(Seq::empty(), rest, seq![sep]);
            assert(seq![sep] + s.drop_first() =~= s);
            assert forall|k: int| 0 <= k < all.len() implies !(#[trigger] all[k]).contains(sep) by {
                if k > 0 {
                    assert(all[k] == rest[k - 1]);
                }
            }
        } else {
            let all = rest.update(0, seq![s[0]] + rest[0]);
            lemma_joined_grow(s[0], rest, seq![sep]);
            assert(seq![s[0]] + s.drop_first() =~= s);
            assert forall|k: int| 0 <= k < all.len() implies !(#[trigger] all[k]).contains(sep) by {
                if k > 0 {
                    assert(all[k] == rest[k]);
                } else {
                    let grown = seq![s[0]] + rest[0];
                    assert forall|j: int| 0 <= j < grown.len() implies grown[j] != sep by {
                        if j > 0 {
                            assert(rest[0].contains(rest[0][j - 1]));
                        }
                    }
                }
            }
        }
    }
}

/// Joining with one more part in front.
pub proof fn lemma_joined_front(first: Seq<char>, rest: Seq<Seq<char>>, sep: Seq<char>)
    requires
        rest.len() >= 1,
    ensures
        joined(seq![first] + rest, sep) == first + sep + joined(rest, sep),
    decreases rest.len(),
{
    let all = seq![first] + rest;
    if rest.len() == 1 {
        assert(all.drop_last() =~= seq![first]);
        assert(all.last() == rest[0]);
        assert(joined(seq![first], sep) == first);
        assert(joined(all, sep) == joined(all.drop_last(), sep) + sep + all.last());
    } else {
        lemma_joined_front(first, rest.drop_last(), sep);
        assert(all.drop_last() =~= seq![first] + rest.drop_last());
        assert(all.last() == rest.last());
        assert(joined(all, sep) == joined(all.drop_last(), sep) + sep + all.last());
        assert(first + sep + joined(rest.drop_last(), sep) + sep + rest.last() =~= first + sep + (
        joined(rest.drop_last(), sep) + sep + rest.last()));
    }
}

/// Joining after one more character was put in front of the first part.
pub proof fn lemma_joined_grow(c: char, parts: Seq<Seq<char>>, sep: Seq<char>)
    requires
        parts.len() >= 1,
    ensures
        joined(parts.update(0, seq![c] + parts[0]), sep) == seq![c] + joined(parts, sep),
    decreases parts.len(),
{
    let grown = parts.update(0, seq![c] + parts[0]);
    if parts.len() == 1 {
    } else {
        lemma_joined_grow(c, parts.drop_last(), sep);
        assert(grown.drop_last() =~= parts.drop_last().update(0, seq![c] + parts[0]));
        assert(grown.last() == parts.last());
        assert(seq![c] + joined(parts.drop_last(), sep) + sep + parts.last() =~= seq![c] + (joined(
            parts.drop_last(),
            sep,
        ) + sep + parts.last()));
    }
}

/// The decimal digit for `d`, which is below ten.
pub open spec fn digit(d: nat) -> char {
    if d == 0 {
        '0'
    } else if d == 1 {
        '1'
    } else if d == 2 {
        '2'
    } else if d == 3 {
        '3'
    } else if d == 4 {
        '4'
    } else if d == 5 {
        '5'
    } else if d == 6 {
        '6'
    } else if d == 7 {
        '7'
    } else if d == 8 {
        '8'
    } else {
        '9'
    }
}

/// The decimal numeral of `n`, without leading zeros.
pub open spec fn numeral(n: nat) -> Seq<char>
    decreases n,
{
    if n < 10 {
        seq![digit(n)]
    } else {
        numeral(n / 10).push(digit(n % 10))
    }
}

/// The text of one decimal digit.
fn digit_text(d: u64) -> (out: &'static str)
    requires
        d < 10,
    ensures
        out@ == seq![digit(d as nat)],
{
    proof {
        reveal_strlit("0");
        reveal_strlit("1");
        reveal_strlit("2");
        reveal_strlit("3");
        reveal_strlit("4");
        reveal_strlit("5");
        reveal_strlit("6");
        reveal_strlit("7");
        reveal_strlit("8");
        reveal_strlit("9");
    }
    let out = if d == 0 {
        "0"
    } else if d == 1 {
        "1"
    } else if d == 2 {
        "2"
    } else if d == 3 {
        "3"
    } else if d == 4 {
        "4"
    } else if d == 5 {
        "5"
    } else if d == 6 {
        "6"
    } else if d == 7 {
        "7"
    } else if d == 8 {
        "8"
    } else {
        "9"
    };
    assert(out@ =~= seq![digit(d as nat)]);
    out
}

/// Writes `n` in decimal.
pub fn decimal(n: u64) -> (out: String)
    ensures
        out@ == numeral(n as nat),
    decreases n,
{
    if n < 10 {
        digit_text(n).to_owned()
    } else {
        let mut out = decimal(n / 10);
        out.append(digit_text(n % 10));
        assert(out@ =~= numeral(n as nat));
        out
    }
}

/// The strict lexicographic order on character sequences, by code point: the
/// order that the standard library gives strings.
pub open spec fn lex_lt(a: Seq<char>, b: Seq<char>) -> bool
    decreases a.len(),
{
    if b.len() == 0 {
        false
    } else if a.len() == 0 {
        true
    } else if a[0] == b[0] {
        lex_lt(a.drop_first(), b.drop_first())
    } else {
        (a[0] as int) < (b[0] as int)
    }
}

/// Tests whether `a` comes strictly before `b` in the lexicographic order.
pub fn lex_less(a: &str, b: &str) -> (r: bool)
    ensures
        r == lex_lt(a@, b@),
{
    let x = to_chars(a);
    let y = to_chars(b);
    let mut i: usize = 0;
    assert(a@.skip(0) =~= a@);
    assert(b@.skip(0) =~= b@);
    while i < x.len() && i < y.len()
        invariant
            i <= x.len(),
            i <= y.len(),
            x@ == a@,
            y@ == b@,
            lex_lt(a@, b@) == lex_lt(a@.skip(i as int), b@.skip(i as int)),
        decreases x.len() - i,
    {
        proof {
            assert(a@.skip(i as int).drop_first() =~= a@.skip(i + 1));
            assert(b@.skip(i as int).drop_first() =~= b@.skip(i + 1));
        }
        let c = x[i];
        let d = y[i];
        assert(a@.skip(i as int)[0] == c && b@.skip(i as int)[0] == d);
        if c != d {
            return c < d;
        }
        i = i + 1;
    }
    i < y.len()
}

/// No sequence comes before itself.
pub proof fn lemma_lex_irreflexive(a: Seq<char>)
    ensures
        !lex_lt(a, a),
    decreases a.len(),
{
    if a.len() > 0 {
        lemma_lex_irreflexive(a.drop_first());
    }
}

/// Of two different sequences one comes before the other.
pub proof fn lemma_lex_total(a: Seq<char>, b: Seq<char>)
    ensures
        a == b || lex_lt(a, b) || lex_lt(b, a),
        !(lex_lt(a, b) && lex_lt(b, a)),
    decreases a.len(),
{
    if a.len() == 0 || b.len() == 0 {
        if a.len() == 0 && b.len() == 0 {
            assert(a =~= b);
        }
    } else if a[0] == b[0] {
        lemma_lex_total(a.drop_first(), b.drop_first());
        if a.drop_first() == b.drop_first() {
            assert(a =~= seq![a[0]] + a.drop_first());
            assert(b =~= seq![b[0]] + b.drop_first());
        }
    }
}

/// What comes before `b` comes before everything that does not come before `b`.
pub proof fn lemma_lex_transitive(a: Seq<char>, b: Seq<char>, c: Seq<char>)
    requires
        lex_lt(a, b),
        !lex_lt(c, b),
    ensures
        lex_lt(a, c),
    decreases a.len(),
{
    if a.len() > 0 && a[0] == b[0] && c[0] == b[0] {
        lemma_lex_transitive(a.drop_first(), b.drop_first(), c.drop_first());
    }
}

} // verus!



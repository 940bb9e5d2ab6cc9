//! Text primitives: the model of strings as sequences of characters, and
//! verified versions of the trimming, splitting, joining and decimal
//! conversions that the rest of the crate is built on.

use vstd::prelude::*;

verus! {

/// `String::push` appends the character to the end of the string.
pub assume_specification[ String::push ](s: &mut String, c: char)
    ensures
        final(s)@ == old(s)@.push(c),
;

// ------------------------------------------------------------------ views

/// What a list of strings reads as.
pub open spec fn texts(list: Seq<String>) -> Seq<Seq<char>> {
    Seq::new(list.len(), |i: int| list[i]@)
}

/// What a list of character buffers reads as.
pub open spec fn views(list: Seq<Vec<char>>) -> Seq<Seq<char>> {
    Seq::new(list.len(), |i: int| list[i]@)
}

/// What an optional string reads as.
pub open spec fn opt_text(s: Option<String>) -> Option<Seq<char>> {
    match s {
        Some(t) => Some(t@),
        None => None,
    }
}

/// The text of an optional string, or the empty text.
pub open spec fn text_or_empty(s: Option<String>) -> Seq<char> {
    match s {
        Some(t) => t@,
        None => Seq::empty(),
    }
}

// ------------------------------------------------------------- characters

/// The characters with the Unicode `White_Space` property.
pub open spec fn is_white_space(c: char) -> bool {
    ||| '\u{9}' <= c <= '\u{d}'
    ||| c == '\u{20}'
    ||| c == '\u{85}'
    ||| c == '\u{a0}'
    ||| c == '\u{1680}'
    ||| '\u{2000}' <= c <= '\u{200a}'
    ||| c == '\u{2028}'
    ||| c == '\u{2029}'
    ||| c == '\u{202f}'
    ||| c == '\u{205f}'
    ||| c == '\u{3000}'
}

fn white_space(c: char) -> (r: bool)
    ensures
        r == is_white_space(c),
{
    ('\u{9}' <= c && c <= '\u{d}') || c == '\u{20}' || c == '\u{85}' || c == '\u{a0}' || c
        == '\u{1680}' || ('\u{2000}' <= c && c <= '\u{200a}') || c == '\u{2028}' || c == '\u{2029}'
        || c == '\u{202f}' || c == '\u{205f}' || c == '\u{3000}'
}

/// The upper case of an ASCII letter; any other character is kept.
pub open spec fn upper_char(c: char) -> char {
    if 'a' <= c <= 'z' {
        (c as u8 - 32) as char
    } else {
        c
    }
}

/// The lower case of an ASCII letter; any other character is kept.
pub open spec fn lower_char(c: char) -> char {
    if 'A' <= c <= 'Z' {
        (c as u8 + 32) as char
    } else {
        c
    }
}

pub open spec fn upper(s: Seq<char>) -> Seq<char> {
    s.map_values(|c: char| upper_char(c))
}

pub open spec fn lower(s: Seq<char>) -> Seq<char> {
    s.map_values(|c: char| lower_char(c))
}

/// The characters of a string, in order.
pub fn chars_of(s: &str) -> (out: Vec<char>)
    ensures
        out@ == s@,
{
    let mut out: Vec<char> = Vec::new();
    for c in it: s.chars()
        invariant
            it.seq() == s@,
            out@ == it.seq().take(it.index() as int),
    {
        out.push(c);
        assert(it.seq().take(it.index() + 1) =~= it.seq().take(it.index() as int).push(c));
    }
    out
}

/// The string that holds the given characters.
pub fn string_of(chars: &Vec<char>) -> (out: String)
    ensures
        out@ == chars@,
{
    let mut out: String = String::new();
    for i in 0..chars.len()
        invariant
            out@ == chars@.take(i as int),
    {
        out.push(chars[i]);
        assert(chars@.take(i + 1) =~= chars@.take(i as int).push(chars@[i as int]));
    }
    assert(chars@.take(chars@.len() as int) =~= chars@);
    out
}

/// Whether two strings hold the same characters.
pub fn same_text(a: &str, b: &str) -> (r: bool)
    ensures
        r == (a@ == b@),
{
    a.to_owned() == b.to_owned()
}

/// The two texts one after the other.
pub fn concat2(a: &str, b: &str) -> (r: String)
    ensures
        r@ == a@ + b@,
{
    let mut out: String = a.to_owned();
    out.append(b);
    out
}

/// The three texts one after the other.
pub fn concat3(a: &str, b: &str, c: &str) -> (r: String)
    ensures
        r@ == a@ + b@ + c@,
{
    let mut out: String = a.to_owned();
    out.append(b);
    out.append(c);
    out
}

/// The text with its ASCII letters in lower case.
pub fn to_lower(s: &str) -> (r: String)
    ensures
        r@ == lower(s@),
{
    let mut out: String = String::new();
    for c in it: s.chars()
        invariant
            it.seq() == s@,
            out@ == lower(it.seq().take(it.index() as int)),
    {
        let d = if 'A' <= c && c <= 'Z' {
            (c as u8 + 32) as char
        } else {
            c
        };
        out.push(d);
        assert(lower(it.seq().take(it.index() + 1)) =~= lower(
            it.seq().take(it.index() as int),
        ).push(lower_char(c)));
    }
    assert(s@.take(s@.len() as int) =~= s@);
    out
}

/// The characters with ASCII letters in upper case.
pub fn to_upper(chars: &Vec<char>) -> (out: Vec<char>)
    ensures
        out@ == upper(chars@),
{
    let mut out: Vec<char> = Vec::new();
    for i in 0..chars.len()
        invariant
            out@ == upper(chars@.take(i as int)),
    {
        let c = chars[i];
        let d = if 'a' <= c && c <= 'z' {
            (c as u8 - 32) as char
        } else {
            c
        };
        out.push(d);
        assert(upper(chars@.take(i + 1)) =~= upper(chars@.take(i as int)).push(upper_char(c)));
    }
    assert(chars@.take(chars@.len() as int) =~= chars@);
    out
}

// --------------------------------------------------------------- trimming

/// The text without its leading white space.
pub open spec fn trim_start(s: Seq<char>) -> Seq<char>
    decreases s.len(),
{
    if s.len() > 0 && is_white_space(s[0]) {
        trim_start(s.drop_first())
    } else {
        s
    }
}

/// The text without its trailing white space.
pub open spec fn trim_end(s: Seq<char>) -> Seq<char>
    decreases s.len(),
{
    if s.len() > 0 && is_white_space(s.last()) {
        trim_end(s.drop_last())
    } else {
        s
    }
}

/// The text without white space at either end.
pub open spec fn trim(s: Seq<char>) -> Seq<char> {
    trim_end(trim_start(s))
}

fn copy_range(chars: &Vec<char>, lo: usize, hi: usize) -> (out: Vec<char>)
    requires
        lo <= hi <= chars@.len(),
    ensures
        out@ == chars@.subrange(lo as int, hi as int),
{
    let mut out: Vec<char> = Vec::new();
    for i in lo..hi
        invariant
            hi <= chars@.len(),
            out@ == chars@.subrange(lo as int, i as int),
    {
        out.push(chars[i]);
        assert(chars@.subrange(lo as int, i + 1) =~= chars@.subrange(lo as int, i as int).push(
            chars@[i as int],
        ));
    }
    out
}

/// Drops leading white space.
pub fn trim_start_chars(chars: &Vec<char>) -> (out: Vec<char>)
    ensures
        out@ == trim_start(chars@),
{
    let n = chars.len();
    let mut lo: usize = 0;
    assert(chars@.subrange(0, n as int) =~= chars@);
    while lo < n && white_space(chars[lo])
        invariant
            n == chars@.len(),
            lo <= n,
            trim_start(chars@) == trim_start(chars@.subrange(lo as int, n as int)),
        decreases n - lo,
    {
        assert(chars@.subrange(lo as int, n as int).drop_first() =~= chars@.subrange(
            lo + 1,
            n as int,
        ));
        lo = lo + 1;
    }
    copy_range(chars, lo, n)
}

/// Drops white space at both ends.
pub fn trim_chars(chars: &Vec<char>) -> (out: Vec<char>)
    ensures
        out@ == trim(chars@),
{
    let front = trim_start_chars(chars);
    let mut hi: usize = front.len();
    assert(front@.subrange(0, hi as int) =~= front@);
    while hi > 0 && white_space(front[hi - 1])
        invariant
            hi <= front@.len(),
            trim_end(front@) == trim_end(front@.subrange(0, hi as int)),
        decreases hi,
    {
        assert(front@.subrange(0, hi as int).drop_last() =~= front@.subrange(0, hi - 1));
        hi = hi - 1;
    }
    copy_range(&front, 0, hi)
}

/// Whether the text starts with the prefix.
pub open spec fn starts_with(s: Seq<char>, prefix: Seq<char>) -> bool {
    s.len() >= prefix.len() && s.take(prefix.len() as int) == prefix
}

/// Decides whether the text starts with the prefix.
pub fn starts_with_chars(chars: &Vec<char>, prefix: &Vec<char>) -> (r: bool)
    ensures
        r == starts_with(chars@, prefix@),
{
    if chars.len() < prefix.len() {
        return false;
    }
    for i in 0..prefix.len()
        invariant
            prefix@.len() <= chars@.len(),
            forall|k: int| 0 <= k < i ==> chars@[k] == prefix@[k],
    {
        if chars[i] != prefix[i] {
            assert(chars@.take(prefix@.len() as int)[i as int] != prefix@[i as int]);
            return false;
        }
    }
    assert(chars@.take(prefix@.len() as int) =~= prefix@);
    true
}

// ----------------------------------------------------------------- ordering

/// Whether the first text comes before the second in the order of a
/// dictionary, by the code points of the characters.
pub open spec fn precedes(a: Seq<char>, b: Seq<char>) -> bool
    decreases a.len(),
{
    if b.len() == 0 {
        false
    } else if a.len() == 0 {
        true
    } else if a[0] != b[0] {
        a[0] < b[0]
    } else {
        precedes(a.drop_first(), b.drop_first())
    }
}

/// Decides whether the first text comes before the second.
pub fn is_before(a: &str, b: &str) -> (r: bool)
    ensures
        r == precedes(a@, b@),
{
    let x = chars_of(a);
    let y = chars_of(b);
    let n = x.len();
    let m = y.len();
    let mut i: usize = 0;
    assert(x@.skip(0) =~= x@);
    assert(y@.skip(0) =~= y@);
    while i < n && i < m && x[i] == y[i]
        invariant
            n == x@.len(),
            m == y@.len(),
            i <= n,
            i <= m,
            precedes(x@, y@) == precedes(x@.skip(i as int), y@.skip(i as int)),
        decreases n - i,
    {
        assert(x@.skip(i as int).drop_first() =~= x@.skip(i + 1));
        assert(y@.skip(i as int).drop_first() =~= y@.skip(i + 1));
        i = i + 1;
    }
    i < m && (i == n || x[i] < y[i])
}

pub proof fn lemma_precedes_irreflexive(a: Seq<char>)
    ensures
        !precedes(a, a),
    decreases a.len(),
{
    if a.len() > 0 {
        lemma_precedes_irreflexive(a.drop_first());
    }
}

pub proof fn lemma_precedes_transitive(a: Seq<char>, b: Seq<char>, c: Seq<char>)
    requires
        precedes(a, b),
        precedes(b, c),
    ensures
        precedes(a, c),
    decreases a.len(),
{
    if a.len() > 0 && a[0] == b[0] && b[0] == c[0] {
        lemma_precedes_transitive(a.drop_first(), b.drop_first(), c.drop_first());
    }
}

pub proof fn lemma_precedes_total(a: Seq<char>, b: Seq<char>)
    ensures
        precedes(a, b) || a == b || precedes(b, a),
    decreases a.len(),
{
    if a.len() == 0 || b.len() == 0 {
        assert(a.len() == b.len() ==> a =~= b);
    } else if a[0] == b[0] {
        lemma_precedes_total(a.drop_first(), b.drop_first());
        if a.drop_first() == b.drop_first() {
            assert(seq![a[0]] + a.drop_first() =~= a);
            assert(seq![b[0]] + b.drop_first() =~= b);
        }
    }
}

// ------------------------------------------------- splitting and joining

/// The pieces of the text between the separators. There is one piece more
/// than there are separators.
pub open spec fn split(s: Seq<char>, sep: char) -> Seq<Seq<char>>
    decreases s.len(),
{
    if s.len() == 0 {
        seq![Seq::empty()]
    } else {
        let before = split(s.drop_last(), sep);
        if s.last() == sep {
            before.push(Seq::empty())
        } else {
            before.drop_last().push(before.last().push(s.last()))
        }
    }
}

/// The pieces one after the other, with the separator between neighbours.
pub open spec fn join(parts: Seq<Seq<char>>, sep: Seq<char>) -> Seq<char>
    decreases parts.len(),
{
    if parts.len() == 0 {
        Seq::empty()
    } else if parts.len() == 1 {
        parts[0]
    } else {
        join(parts.drop_last(), sep) + sep + parts.last()
    }
}

pub proof fn lemma_split_len(s: Seq<char>, sep: char)
    ensures
        split(s, sep).len() >= 1,
    decreases s.len(),
{
    if s.len() > 0 {
        lemma_split_len(s.drop_last(), sep);
    }
}

/// Cuts the text at each separator.
pub fn split_chars(chars: &Vec<char>, sep: char) -> (out: Vec<Vec<char>>)
    ensures
        views(out@) == split(chars@, sep),
        out@.len() >= 1,
{
    let mut out: Vec<Vec<char>> = Vec::new();
    let mut cur: Vec<char> = Vec::new();
    assert(views(out@).push(cur@) =~= split(chars@.take(0), sep));
    for i in 0..chars.len()
        invariant
            views(out@).push(cur@) == split(chars@.take(i as int), sep),
    {
        let ghost before = views(out@).push(cur@);
        assert(chars@.take(i + 1).drop_last() =~= chars@.take(i as int));
        if chars[i] == sep {
            let ghost done = out@;
            let ghost piece = cur;
            out.push(cur);
            cur = Vec::new();
            assert(views(out@) =~= views(done).push(piece@));
            assert(views(out@).push(cur@) =~= before.push(Seq::empty()));
        } else {
            let ghost piece = cur@;
            cur.push(chars[i]);
            assert(before.drop_last() =~= views(out@));
            assert(before.last() == piece);
        }
    }
    assert(chars@.take(chars@.len() as int) =~= chars@);
    let ghost done = out@;
    out.push(cur);
    assert(views(out@) =~= views(done).push(cur@));
    out
}

/// Joins the pieces with the separator between neighbours.
pub fn join_chars(parts: &Vec<Vec<char>>, sep: &str) -> (out: String)
    ensures
        out@ == join(views(parts@), sep@),
{
    let mut out: String = String::new();
    let ghost all = views(parts@);
    for i in 0..parts.len()
        invariant
            all == views(parts@),
            out@ == join(all.take(i as int), sep@),
    {
        if i > 0 {
            out.append(sep);
        }
        let text = string_of(&parts[i]);
        out.append(text.as_str());
        assert(all.take(i + 1).drop_last() =~= all.take(i as int));
        assert(all.take(i + 1).last() == parts@[i as int]@);
        assert(out@ =~= join(all.take(i + 1), sep@));
    }
    assert(all.take(parts@.len() as int) =~= all);
    out
}

/// A text without the separator is its own single piece.
pub proof fn lemma_split_single(s: Seq<char>, sep: char)
    requires
        !s.contains(sep),
    ensures
        split(s, sep) == seq![s],
    decreases s.len(),
{
    if s.len() > 0 {
        let init = s.drop_last();
        assert(s[s.len() - 1] == s.last());
        assert forall|c: char| init.contains(c) implies s.contains(c) by {
            let k = choose|k: int| 0 <= k < init.len() && init[k] == c;
            assert(s[k] == c);
        }
        lemma_split_single(init, sep);
        assert(split(s, sep) =~= seq![s]) by {
            assert(init.push(s.last()) =~= s);
        }
    } else {
        assert(s =~= Seq::empty());
    }
}

/// Appending a separator and a text without it appends one piece.
pub proof fn lemma_split_append(a: Seq<char>, b: Seq<char>, sep: char)
    requires
        !b.contains(sep),
    ensures
        split(a + seq![sep] + b, sep) == split(a, sep).push(b),
    decreases b.len(),
{
    let whole = a + seq![sep] + b;
    lemma_split_len(a, sep);
    if b.len() == 0 {
        assert(whole.drop_last() =~= a);
        assert(b =~= Seq::empty());
    } else {
        let init = b.drop_last();
        assert(b[b.len() - 1] == b.last());
        assert forall|c: char| init.contains(c) implies b.contains(c) by {
            let k = choose|k: int| 0 <= k < init.len() && init[k] == c;
            assert(b[k] == c);
        }
        lemma_split_append(a, init, sep);
        assert(whole.drop_last() =~= a + seq![sep] + init);
        assert(whole.last() == b.last());
        assert(init.push(b.last()) =~= b);
        assert(split(whole, sep) =~= split(a, sep).push(b));
    }
}

/// Splitting undoes joining, for pieces that do not hold the separator.
pub proof fn lemma_split_join(parts: Seq<Seq<char>>, sep: char)
    requires
        parts.len() > 0,
        forall|i: int| 0 <= i < parts.len() ==> !(#[trigger] parts[i]).contains(sep),
    ensures
        split(join(parts, seq![sep]), sep) == parts,
    decreases parts.len(),
{
    if parts.len() == 1 {
        lemma_split_single(parts[0], sep);
        assert(parts =~= seq![parts[0]]);
    } else {
        let init = parts.drop_last();
        assert forall|i: int| 0 <= i < init.len() implies !(#[trigger] init[i]).contains(sep) by {
            assert(init[i] == parts[i]);
        }
        lemma_split_join(init, sep);
        lemma_split_append(join(init, seq![sep]), parts[parts.len() - 1], sep);
        assert(init.push(parts.last()) =~= parts);
    }
}

/// No piece holds the separator.
pub proof fn lemma_split_pieces(s: Seq<char>, sep: char)
    ensures
        forall|i: int| 0 <= i < split(s, sep).len() ==> !(#[trigger] split(s, sep)[i]).contains(sep),
    decreases s.len(),
{
    if s.len() > 0 {
        lemma_split_len(s.drop_last(), sep);
        lemma_split_pieces(s.drop_last(), sep);
        let before = split(s.drop_last(), sep);
        let all = split(s, sep);
        assert forall|i: int| 0 <= i < all.len() implies !(#[trigger] all[i]).contains(sep) by {
            if s.last() == sep {
                if i < before.len() {
                    assert(all[i] == before[i]);
                }
            } else {
                if i < before.len() - 1 {
                    assert(all[i] == before[i]);
                } else {
                    assert(all[i] == before.last().push(s.last()));
                    assert(before.last() == before[before.len() - 1]);
                    if all[i].contains(sep) {
                        let k = choose|k: int| 0 <= k < all[i].len() && all[i][k] == sep;
                        assert(before.last()[k] == sep);
                    }
                }
            }
        }
    }
}

/// Whether the text ends with the character.
pub open spec fn ends_with(s: Seq<char>, c: char) -> bool {
    s.len() > 0 && s.last() == c
}

/// Joining undoes splitting.
pub proof fn lemma_join_split(s: Seq<char>, sep: char)
    ensures
        join(split(s, sep), seq![sep]) == s,
    decreases s.len(),
{
    if s.len() > 0 {
        let init = s.drop_last();
        let before = split(init, sep);
        lemma_split_len(init, sep);
        lemma_join_split(init, sep);
        let pieces = split(s, sep);
        assert(init.push(s.last()) =~= s);
        if s.last() == sep {
            assert(pieces.drop_last() =~= before);
            assert(join(pieces, seq![sep]) =~= s);
        } else if before.len() == 1 {
            assert(pieces =~= seq![before[0].push(s.last())]);
        } else {
            assert(pieces.drop_last() =~= before.drop_last());
            assert(join(pieces, seq![sep]) =~= s);
        }
    }
}

// ---------------------------------------------------------------- decimals

/// The character of a decimal digit.
pub open spec fn digit_char(d: nat) -> char {
    (d + 48) as char
}

pub open spec fn is_digit(c: char) -> bool {
    '0' <= c <= '9'
}

pub open spec fn digit_value(c: char) -> nat {
    (c as int - 48) as nat
}

/// The shortest decimal form of a natural number.
pub open spec fn nat_text(n: nat) -> Seq<char>
    decreases n,
{
    if n < 10 {
        seq![digit_char(n)]
    } else {
        nat_text(n / 10).push(digit_char(n % 10))
    }
}

/// The shortest decimal form of an integer, with a minus sign below zero.
pub open spec fn int_text(i: int) -> Seq<char> {
    if i < 0 {
        seq!['-'] + nat_text((-i) as nat)
    } else {
        nat_text(i as nat)
    }
}

pub open spec fn all_digits(s: Seq<char>) -> bool {
    forall|i: int| 0 <= i < s.len() ==> is_digit(#[trigger] s[i])
}

/// The number that a run of digits stands for.
pub open spec fn digits_value(s: Seq<char>) -> nat
    decreases s.len(),
{
    if s.len() == 0 {
        0
    } else {
        10 * digits_value(s.drop_last()) + digit_value(s.last())
    }
}

/// The number that one or more digits stand for.
pub open spec fn text_nat(s: Seq<char>) -> Option<nat> {
    if s.len() > 0 && all_digits(s) {
        Some(digits_value(s))
    } else {
        None
    }
}

/// The integer that a decimal text stands for: one or more digits, after a
/// sign or without one.
pub open spec fn text_int(s: Seq<char>) -> Option<int> {
    if s.len() > 0 && s[0] == '-' {
        match text_nat(s.drop_first()) {
            Some(n) => Some(-(n as int)),
            None => None,
        }
    } else if s.len() > 0 && s[0] == '+' {
        match text_nat(s.drop_first()) {
            Some(n) => Some(n as int),
            None => None,
        }
    } else {
        match text_nat(s) {
            Some(n) => Some(n as int),
            None => None,
        }
    }
}

/// The integer in the `i64` range that a decimal text stands for.
pub open spec fn text_i64(s: Seq<char>) -> Option<i64> {
    match text_int(s) {
        Some(i) => if i64::MIN <= i <= i64::MAX {
            Some(i as i64)
        } else {
            None
        },
        None => None,
    }
}

/// The number in the `u16` range that an unsigned decimal text stands for. A
/// plus sign may come first, a minus sign may not.
pub open spec fn text_u16(s: Seq<char>) -> Option<u16> {
    let digits = if s.len() > 0 && s[0] == '+' {
        s.drop_first()
    } else {
        s
    };
    match text_nat(digits) {
        Some(n) => if n <= u16::MAX {
            Some(n as u16)
        } else {
            None
        },
        None => None,
    }
}

fn push_nat(out: &mut String, n: u64)
    ensures
        final(out)@ == old(out)@ + nat_text(n as nat),
    decreases n,
{
    if n >= 10 {
        push_nat(out, n / 10);
    }
    let d = (n % 10) as u8;
    assert((d + 48) as char == digit_char((n as nat) % 10));
    out.push((d + 48) as char);
    assert(out@ =~= old(out)@ + nat_text(n as nat));
}

/// The decimal form of an integer.
pub fn i64_text(i: i64) -> (out: String)
    ensures
        out@ == int_text(i as int),
{
    let mut out: String = String::new();
    if i < 0 {
        out.push('-');
        let magnitude: u64 = (-(i + 1)) as u64 + 1;
        push_nat(&mut out, magnitude);
        assert(out@ =~= int_text(i as int));
    } else {
        push_nat(&mut out, i as u64);
        assert(out@ =~= int_text(i as int));
    }
    out
}

proof fn lemma_digits_monotone(s: Seq<char>, i: int)
    requires
        0 <= i <= s.len(),
    ensures
        digits_value(s.take(i)) <= digits_value(s),
    decreases s.len(),
{
    if i < s.len() {
        lemma_digits_monotone(s.drop_last(), i);
        assert(s.drop_last().take(i) =~= s.take(i));
    } else {
        assert(s.take(i) =~= s);
    }
}

/// Reads the digits from `from` to the end as a number of at most `limit`.
fn parse_digits(chars: &Vec<char>, from: usize, limit: u64) -> (r: Option<u64>)
    requires
        from <= chars@.len(),
        limit <= 0x8000_0000_0000_0000,
    ensures
        match text_nat(chars@.skip(from as int)) {
            Some(n) => if n <= limit {
                r == Some(n as u64)
            } else {
                r is None
            },
            None => r is None,
        },
{
    let ghost s = chars@.skip(from as int);
    let n = chars.len();
    if from == n {
        return None;
    }
    let mut acc: u64 = 0;
    let mut i: usize = from;
    while i < n
        invariant
            n == chars@.len(),
            from <= i <= n,
            from < n,
            s == chars@.skip(from as int),
            limit <= 0x8000_0000_0000_0000,
            acc == digits_value(s.take(i - from)),
            acc <= limit,
            forall|k: int| 0 <= k < i - from ==> is_digit(#[trigger] s[k]),
        decreases n - i,
    {
        let c = chars[i];
        assert(s[i - from] == c);
        if c < '0' || c > '9' {
            assert(!is_digit(s[i - from]));
            return None;
        }
        let d = (c as u8 - 48) as u64;
        assert(s.take(i - from + 1).drop_last() =~= s.take(i - from));
        let ghost next = digits_value(s.take(i - from + 1));
        assert(next == 10 * acc + d);
        if acc > limit / 10 || acc * 10 + d > limit {
            proof {
                lemma_digits_monotone(s, i - from + 1);
            }
            return None;
        }
        acc = acc * 10 + d;
        i = i + 1;
    }
    assert(s.take(n - from) =~= s);
    Some(acc)
}

/// Reads a decimal integer.
pub fn parse_i64(s: &str) -> (r: Option<i64>)
    ensures
        r == text_i64(s@),
{
    let chars = chars_of(s);
    assert(s@.skip(0) =~= s@);
    assert(s@.len() > 0 ==> s@.skip(1) =~= s@.drop_first());
    if chars.len() > 0 && chars[0] == '-' {
        match parse_digits(&chars, 1, 0x8000_0000_0000_0000) {
            Some(n) => if n == 0 {
                Some(0)
            } else {
                Some(-((n - 1) as i64) - 1)
            },
            None => None,
        }
    } else {
        let from: usize = if chars.len() > 0 && chars[0] == '+' {
            1
        } else {
            0
        };
        match parse_digits(&chars, from, 0x7fff_ffff_ffff_ffff) {
            Some(n) => Some(n as i64),
            None => None,
        }
    }
}

/// Reads an unsigned decimal number.
pub fn parse_u16(s: &str) -> (r: Option<u16>)
    ensures
        r == text_u16(s@),
{
    let chars = chars_of(s);
    assert(s@.skip(0) =~= s@);
    assert(s@.len() > 0 ==> s@.skip(1) =~= s@.drop_first());
    let from: usize = if chars.len() > 0 && chars[0] == '+' {
        1
    } else {
        0
    };
    match parse_digits(&chars, from, 0xffff) {
        Some(n) => Some(n as u16),
        None => None,
    }
}

proof fn lemma_nat_text(n: nat)
    ensures
        text_nat(nat_text(n)) == Some(n),
    decreases n,
{
    let t = nat_text(n);
    if n < 10 {
        assert(digits_value(t.drop_last()) == 0);
        assert(digit_value(t.last()) == n);
    } else {
        lemma_nat_text(n / 10);
        assert(t.drop_last() =~= nat_text(n / 10));
        assert forall|i: int| 0 <= i < t.len() implies is_digit(#[trigger] t[i]) by {
            if i < t.len() - 1 {
                assert(t[i] == nat_text(n / 10)[i]);
            }
        }
    }
}

/// Reading the decimal form of an integer gives the integer back: an id that
/// the API gave out names the same object when it comes back in a request.
pub proof fn law_decimal_round_trip(i: i64)
    ensures
        text_i64(int_text(i as int)) == Some(i),
{
    if i < 0 {
        lemma_nat_text((-i) as nat);
        let t = int_text(i as int);
        assert(t.drop_first() =~= nat_text((-i) as nat));
    } else {
        lemma_nat_text(i as nat);
        let t = int_text(i as int);
        assert(is_digit(t[0]));
    }
}

// --------------------------------------------------------------------- laws

/// The white space that is trimmed: blank, tab and line endings are, and no
/// other visible or control character of ASCII is.
pub proof fn law_white_space(c: char)
    ensures
        c == ' ' || c == '\t' || c == '\n' || c == '\r' ==> is_white_space(c),
        '!' <= c <= '~' ==> !is_white_space(c),
        is_white_space(c) && c < '\u{80}' ==> c == ' ' || '\t' <= c <= '\r',
{
}

/// Trimming the start takes off white space and nothing else, up to the first
/// character that is none.
pub proof fn law_trim_start(s: Seq<char>) -> (k: int)
    ensures
        0 <= k <= s.len(),
        trim_start(s) == s.skip(k),
        forall|i: int| 0 <= i < k ==> is_white_space(#[trigger] s[i]),
        k < s.len() ==> !is_white_space(s[k]),
    decreases s.len(),
{
    if s.len() > 0 && is_white_space(s[0]) {
        let rest = s.drop_first();
        let k = law_trim_start(rest);
        assert(s.skip(k + 1) =~= rest.skip(k));
        assert forall|i: int| 0 <= i < k + 1 implies is_white_space(#[trigger] s[i]) by {
            if i > 0 {
                assert(s[i] == rest[i - 1]);
            }
        }
        k + 1
    } else {
        assert(s.skip(0) =~= s);
        0
    }
}

/// Trimming the end takes off white space and nothing else, down to the last
/// character that is none.
pub proof fn law_trim_end(s: Seq<char>) -> (k: int)
    ensures
        0 <= k <= s.len(),
        trim_end(s) == s.take(k),
        forall|i: int| k <= i < s.len() ==> is_white_space(#[trigger] s[i]),
        k > 0 ==> !is_white_space(s[k - 1]),
    decreases s.len(),
{
    if s.len() > 0 && is_white_space(s.last()) {
        let rest = s.drop_last();
        let k = law_trim_end(rest);
        assert(s.take(k) =~= rest.take(k));
        assert forall|i: int| k <= i < s.len() implies is_white_space(#[trigger] s[i]) by {
            if i < rest.len() {
                assert(s[i] == rest[i]);
            }
        }
        k
    } else {
        assert(s.take(s.len() as int) =~= s);
        s.len() as int
    }
}

/// What is left of a trimmed text stands in the text as it is, between white
/// space, and has no white space at its ends.
pub proof fn law_trim(s: Seq<char>) -> (r: (int, int))
    ensures
        0 <= r.0 <= r.1 <= s.len(),
        trim(s) == s.subrange(r.0, r.1),
        forall|i: int| 0 <= i < r.0 || r.1 <= i < s.len() ==> is_white_space(#[trigger] s[i]),
        r.0 < r.1 ==> !is_white_space(s[r.0]) && !is_white_space(s[r.1 - 1]),
{
    let lo = law_trim_start(s);
    let rest = s.skip(lo);
    let n = law_trim_end(rest);
    assert(rest.take(n) =~= s.subrange(lo, lo + n));
    assert forall|i: int| 0 <= i < lo || lo + n <= i < s.len() implies is_white_space(
        #[trigger] s[i],
    ) by {
        if i >= lo {
            assert(rest[i - lo] == s[i]);
        }
    }
    if n > 0 {
        assert(rest[n - 1] == s[lo + n - 1]);
        assert(rest[0] == s[lo]);
    }
    (lo, lo + n)
}

/// Upper and lower case differ in the ASCII letters only, keep the length, and
/// lead from one to the other.
pub proof fn law_letter_case(s: Seq<char>)
    ensures
        upper(s).len() == s.len(),
        lower(s).len() == s.len(),
        forall|i: int|
            0 <= i < s.len() ==> ('a' <= s[i] <= 'z' ==> (#[trigger] upper(s)[i]) as int
                == s[i] as int - 32) && (!('a' <= s[i] <= 'z') ==> upper(s)[i] == s[i]),
        forall|i: int|
            0 <= i < s.len() ==> ('A' <= s[i] <= 'Z' ==> (#[trigger] lower(s)[i]) as int
                == s[i] as int + 32) && (!('A' <= s[i] <= 'Z') ==> lower(s)[i] == s[i]),
        upper(lower(s)) == upper(s),
        lower(upper(s)) == lower(s),
        lower(lower(s)) == lower(s),
        upper(upper(s)) == upper(s),
{
    assert(upper(lower(s)) =~= upper(s));
    assert(lower(upper(s)) =~= lower(s));
    assert(lower(lower(s)) =~= lower(s));
    assert(upper(upper(s)) =~= upper(s));
}

/// One text comes before another where, after what they have in common, it
/// ends or has the smaller character.
pub proof fn law_order_of_texts(a: Seq<char>, b: Seq<char>, k: int)
    requires
        0 <= k <= a.len(),
        k < b.len(),
        a.take(k) == b.take(k),
        k < a.len() ==> a[k] != b[k],
    ensures
        precedes(a, b) <==> k == a.len() || a[k] < b[k],
    decreases k,
{
    if k > 0 {
        assert(a.take(k)[0] == a[0] && b.take(k)[0] == b[0]);
        let x = a.drop_first();
        let y = b.drop_first();
        assert forall|i: int| 0 <= i < k - 1 implies #[trigger] x[i] == y[i] by {
            assert(a.take(k)[i + 1] == a[i + 1] && b.take(k)[i + 1] == b[i + 1]);
        }
        assert(x.take(k - 1) =~= y.take(k - 1));
        law_order_of_texts(x, y, k - 1);
    }
}

proof fn lemma_nat_text_starts(n: nat)
    ensures
        nat_text(n).len() > 0,
        n > 0 ==> nat_text(n)[0] != '0',
        n >= 10 ==> nat_text(n).len() > 1,
        n < 10 ==> nat_text(n).len() == 1,
    decreases n,
{
    if n >= 10 {
        lemma_nat_text_starts(n / 10);
        assert(nat_text(n)[0] == nat_text(n / 10)[0]);
    }
}

/// A text without the sign that it may start with.
pub open spec fn unsigned(s: Seq<char>) -> Seq<char> {
    if s.len() > 0 && (s[0] == '-' || s[0] == '+') {
        s.drop_first()
    } else {
        s
    }
}

/// Whether the text is one or more of the ten digits.
pub open spec fn is_run_of_digits(s: Seq<char>) -> bool {
    s.len() > 0 && forall|k: int| 0 <= k < s.len() ==> '0' <= #[trigger] s[k] <= '9'
}

/// The decimal form of an integer has a minus sign exactly below zero, then
/// digits only, and the first of several digits is not zero.
pub proof fn law_decimal_form(i: int)
    ensures
        int_text(i).len() > 0,
        i < 0 <==> int_text(i)[0] == '-',
        int_text(i)[0] != '+',
        is_run_of_digits(unsigned(int_text(i))),
        unsigned(int_text(i)).len() > 1 ==> unsigned(int_text(i))[0] != '0',
        text_int(int_text(i)) == Some(i),
{
    let n = if i < 0 {
        (-i) as nat
    } else {
        i as nat
    };
    lemma_nat_text(n);
    lemma_nat_text_starts(n);
    let t = int_text(i);
    if i < 0 {
        assert(t.drop_first() =~= nat_text(n));
    } else {
        assert(is_digit(t[0]));
    }
    let digits = unsigned(t);
    assert(digits == nat_text(n));
    assert forall|k: int| 0 <= k < digits.len() implies '0' <= #[trigger] digits[k] <= '9' by {
        assert(is_digit(digits[k]));
    }
}

/// A text reads as an integer where it is one or more digits, after a sign or
/// without one, and nothing else does. Numbers out of range read as nothing.
pub proof fn law_what_reads_as_an_integer(s: Seq<char>)
    ensures
        text_int(s) is Some <==> is_run_of_digits(unsigned(s)),
        text_i64(s) matches Some(i) ==> text_int(s) == Some(i as int),
        text_i64(s) is None ==> match text_int(s) {
            Some(i) => i < i64::MIN || i > i64::MAX,
            None => true,
        },
        text_u16(s) matches Some(n) ==> text_int(s) == Some(n as int) && s[0] != '-',
        text_u16(s) is None ==> match text_int(s) {
            Some(i) => s[0] == '-' || i > u16::MAX,
            None => true,
        },
{
    let digits = unsigned(s);
    if all_digits(digits) {
        assert forall|k: int| 0 <= k < digits.len() implies '0' <= #[trigger] digits[k] <= '9' by {
            assert(is_digit(digits[k]));
        }
    }
    if is_run_of_digits(digits) {
        assert forall|k: int| 0 <= k < digits.len() implies is_digit(#[trigger] digits[k]) by {}
    }
    if s.len() > 0 && s[0] == '-' {
        assert(!is_digit(s[0]));
    }
}

/// The value of digits: a single one is its distance from zero, one more digit
/// makes ten times the value and that digit, and a sign counts.
pub proof fn law_value_of_digits(s: Seq<char>, c: char)
    requires
        is_run_of_digits(s),
        '0' <= c <= '9',
    ensures
        text_int(seq![c]) == Some(c as int - '0' as int),
        text_int(s) matches Some(v) ==> v >= 0 && text_int(s.push(c)) == Some(
            10 * v + (c as int - '0' as int),
        ) && text_int(seq!['-'] + s) == Some(-v) && text_int(seq!['+'] + s) == Some(v),
        text_int(s) is Some,
{
    assert(all_digits(s)) by {
        assert forall|k: int| 0 <= k < s.len() implies is_digit(#[trigger] s[k]) by {}
    }
    let one = seq![c];
    assert(one.drop_last() =~= Seq::empty());
    assert(digits_value(one.drop_last()) == 0);
    let more = s.push(c);
    assert(more.drop_last() =~= s);
    assert(is_digit(s[0]));
    assert forall|k: int| 0 <= k < more.len() implies is_digit(#[trigger] more[k]) by {
        if k < s.len() {
            assert(more[k] == s[k]);
        }
    }
    assert(more[0] == s[0]);
    assert((seq!['-'] + s).drop_first() =~= s);
    assert((seq!['+'] + s).drop_first() =~= s);
}

} // verus!

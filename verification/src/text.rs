//! String helpers shared by the other modules.

use vstd::prelude::*;
use vstd::string::StringExecFns;

verus! {

/// `str`'s equality compares the two strings character by character.
pub assume_specification[ <str as PartialEq>::eq ](a: &str, b: &str) -> (out: bool)
    ensures
        out == (a@ == b@),
;

/// `String::push` appends one character.
pub assume_specification[ String::push ](s: &mut String, c: char)
    ensures
        final(s)@ == old(s)@.push(c),
;

/// The upper-case form of a string under Unicode's case mapping.
pub uninterp spec fn uppercase(s: Seq<char>) -> Seq<char>;

/// The lower-case form of a string under Unicode's case mapping.
pub uninterp spec fn lowercase(s: Seq<char>) -> Seq<char>;

/// Whether a character is white space: whether it is one of the code points that have
/// Unicode's property `White_Space`.
pub open spec fn whitespace(c: char) -> bool {
    let code = c as u32;
    (0x09 <= code && code <= 0x0D) || code == 0x20 || code == 0x85 || code == 0xA0 || code
        == 0x1680 || (0x2000 <= code && code <= 0x200A) || code == 0x2028 || code == 0x2029
        || code == 0x202F || code == 0x205F || code == 0x3000
}

/// How many white-space characters `s` begins with.
pub open spec fn leading(s: Seq<char>) -> nat
    decreases s.len(),
{
    if s.len() > 0 && whitespace(s[0]) {
        1 + leading(s.drop_first())
    } else {
        0
    }
}

/// How many white-space characters `s` ends with.
pub open spec fn trailing(s: Seq<char>) -> nat
    decreases s.len(),
{
    if s.len() > 0 && whitespace(s.last()) {
        1 + trailing(s.drop_last())
    } else {
        0
    }
}

/// A string without its leading and trailing white space.
pub open spec fn trimmed(s: Seq<char>) -> Seq<char> {
    if leading(s) >= s.len() {
        Seq::<char>::empty()
    } else {
        s.subrange(leading(s) as int, s.len() - trailing(s))
    }
}

/// Calls `str::to_uppercase`, which gives the upper-case form of a string as Unicode defines
/// it. The form depends on the string alone: `uppercase` is its name.
#[verifier::external_body]
pub(crate) fn to_upper(s: &str) -> (out: String)
    ensures
        out@ == uppercase(s@),
{
    s.to_uppercase()
}

/// Calls `str::to_lowercase`, which gives the lower-case form of a string as Unicode defines
/// it. The form depends on the string alone: `lowercase` is its name.
#[verifier::external_body]
pub(crate) fn to_lower(s: &str) -> (out: String)
    ensures
        out@ == lowercase(s@),
{
    s.to_lowercase()
}

/// Tells whether a character is white space.
pub fn is_whitespace(c: char) -> (out: bool)
    ensures
        out == whitespace(c),
{
    let code: u32 = c as u32;
    (0x09 <= code && code <= 0x0D) || code == 0x20 || code == 0x85 || code == 0xA0 || code
        == 0x1680 || (0x2000 <= code && code <= 0x200A) || code == 0x2028 || code == 0x2029
        || code == 0x202F || code == 0x205F || code == 0x3000
}

proof fn lemma_leading_split(s: Seq<char>, i: int)
    requires
        0 <= i <= s.len(),
        forall|j: int| 0 <= j < i ==> whitespace(#[trigger] s[j]),
    ensures
        leading(s) == i + leading(s.skip(i)),
    decreases i,
{
    if i == 0 {
        assert(s.skip(0) =~= s);
    } else {
        lemma_leading_split(s.drop_first(), i - 1);
        assert(s.drop_first().skip(i - 1) =~= s.skip(i));
        assert(whitespace(s[0]));
    }
}

proof fn lemma_trailing_split(s: Seq<char>, i: int)
    requires
        0 <= i <= s.len(),
        forall|j: int| i <= j < s.len() ==> whitespace(#[trigger] s[j]),
    ensures
        trailing(s) == (s.len() - i) + trailing(s.take(i)),
    decreases s.len() - i,
{
    if i == s.len() {
        assert(s.take(i) =~= s);
    } else {
        lemma_trailing_split(s.drop_last(), i);
        assert(s.drop_last().take(i) =~= s.take(i));
        assert(whitespace(s.last()));
    }
}

/// Cuts the white space at both ends off a string.
pub fn trim(s: &str) -> (out: String)
    ensures
        out@ == trimmed(s@),
{
    let chars = chars_of(s);
    let mut from: usize = 0;
    while from < chars.len() && is_whitespace(chars[from])
        invariant
            from <= chars.len(),
            forall|j: int| 0 <= j < from ==> whitespace(#[trigger] chars@[j]),
        decreases chars.len() - from,
    {
        from += 1;
    }
    proof {
        lemma_leading_split(chars@, from as int);
        assert(from < chars.len() ==> chars@.skip(from as int)[0] == chars@[from as int]);
    }
    let mut out: String = String::new();
    if from == chars.len() {
        return out;
    }
    let mut to: usize = chars.len();
    while to > from && is_whitespace(chars[to - 1])
        invariant
            from <= to <= chars.len(),
            from < chars.len(),
            !whitespace(chars@[from as int]),
            forall|j: int| to <= j < chars.len() ==> whitespace(#[trigger] chars@[j]),
        decreases to,
    {
        to -= 1;
    }
    proof {
        lemma_trailing_split(chars@, to as int);
        assert(to > from);
        assert(chars@.take(to as int).last() == chars@[to as int - 1]);
    }
    let mut i: usize = from;
    while i < to
        invariant
            from <= i <= to <= chars.len(),
            out@ == chars@.subrange(from as int, i as int),
        decreases to - i,
    {
        out.push(chars[i]);
        assert(out@ =~= chars@.subrange(from as int, i as int + 1));
        i += 1;
    }
    out
}

/// The view of an optional string.
pub open spec fn opt_view(s: Option<String>) -> Option<Seq<char>> {
    match s {
        Some(s) => Some(s@),
        None => None,
    }
}

/// The views of a sequence of strings.
pub open spec fn views(strings: Seq<String>) -> Seq<Seq<char>> {
    strings.map_values(|s: String| s@)
}

/// The pieces of `s` between its separators: one more piece than `s` has separators.
pub open spec fn split(s: Seq<char>, sep: char) -> Seq<Seq<char>>
    decreases s.len(),
{
    if s.len() == 0 {
        seq![Seq::<char>::empty()]
    } else {
        let before = split(s.drop_last(), sep);
        if s.last() == sep {
            before.push(Seq::<char>::empty())
        } else {
            before.drop_last().push(before.last().push(s.last()))
        }
    }
}

/// The pieces put together again, with a separator between each two.
pub open spec fn joined_by(pieces: Seq<Seq<char>>, sep: char) -> Seq<char>
    decreases pieces.len(),
{
    if pieces.len() == 0 {
        Seq::<char>::empty()
    } else if pieces.len() == 1 {
        pieces[0]
    } else {
        joined_by(pieces.drop_last(), sep) + seq![sep] + pieces.last()
    }
}

/// Splitting loses nothing and cuts at every separator: the pieces of a string, put together
/// with the separator between them, are the string again, and no piece holds a separator.
pub proof fn lemma_split_joins(s: Seq<char>, sep: char)
    ensures
        split(s, sep).len() >= 1,
        joined_by(split(s, sep), sep) == s,
        forall|i: int| 0 <= i < split(s, sep).len() ==> !(#[trigger] split(s, sep)[i]).contains(sep),
    decreases s.len(),
{
    let pieces = split(s, sep);
    if s.len() == 0 {
        assert(joined_by(pieces, sep) =~= s);
        assert forall|i: int| 0 <= i < pieces.len() implies !(#[trigger] pieces[i]).contains(
            sep,
        ) by {
            assert(pieces[i].len() == 0);
        }
    } else {
        lemma_split_joins(s.drop_last(), sep);
        let before = split(s.drop_last(), sep);
        let c = s.last();
        assert(s =~= s.drop_last().push(c));
        if c == sep {
            assert(pieces.drop_last() =~= before);
            assert(joined_by(pieces, sep) =~= s.drop_last() + seq![sep] + Seq::<char>::empty());
            assert forall|i: int| 0 <= i < pieces.len() implies !(#[trigger] pieces[i]).contains(
                sep,
            ) by {
                if i < before.len() {
                    assert(pieces[i] == before[i]);
                } else {
                    assert(pieces[i].len() == 0);
                }
            }
        } else {
            let grown = before.last().push(c);
            assert(pieces.last() == grown);
            if before.len() == 1 {
                assert(joined_by(before, sep) == before[0]);
                assert(joined_by(pieces, sep) =~= s);
            } else {
                assert(pieces.drop_last() =~= before.drop_last());
                assert(joined_by(pieces, sep) =~= (joined_by(before.drop_last(), sep) + seq![sep]
                    + before.last()).push(c));
            }
            assert forall|i: int| 0 <= i < pieces.len() implies !(#[trigger] pieces[i]).contains(
                sep,
            ) by {
                if i < before.len() - 1 {
                    assert(pieces[i] == before[i]);
                } else {
                    assert(!before.last().contains(sep));
                    if grown.contains(sep) {
                        let k = choose|k: int| 0 <= k < grown.len() && grown[k] == sep;
                        if k < before.last().len() {
                            assert(before.last()[k] == sep);
                        }
                    }
                }
            }
        }
    }
}

/// Cuts `s` at every `sep`.
pub fn split_on(s: &str, sep: char) -> (out: Vec<String>)
    ensures
        views(out@) == split(s@, sep),
{
    let mut done: Vec<String> = Vec::new();
    let mut current: String = String::new();
    assert(s@.take(0) =~= Seq::<char>::empty());
    assert(views(done@).push(current@) =~= split(s@.take(0), sep));
    for c in it: s.chars()
        invariant
            it.seq() == s@,
            views(done@).push(current@) == split(s@.take(it.index() as int), sep),
    {
        let ghost i = it.index() as int;
        proof {
            assert(s@.take(i + 1).drop_last() =~= s@.take(i));
            assert(s@.take(i + 1).last() == c);
            let before = views(done@).push(current@);
            assert(before.drop_last() =~= views(done@));
            assert(before.last() == current@);
        }
        if c == sep {
            let ghost old_done = done@;
            done.push(current);
            current = String::new();
            assert(views(done@) =~= views(old_done).push(done@.last()@));
        } else {
            current.push(c);
        }
    }
    assert(s@.take(s@.len() as int) =~= s@);
    let ghost old_done = done@;
    done.push(current);
    assert(views(done@) =~= views(old_done).push(done@.last()@));
    done
}

/// Whether one of `list` reads `s`.
pub open spec fn holds(list: Seq<String>, s: Seq<char>) -> bool {
    exists|i: int| 0 <= i < list.len() && #[trigger] list[i]@ == s
}

/// Whether no two entries of `list` read the same.
pub open spec fn distinct(list: Seq<String>) -> bool {
    forall|i: int, j: int| 0 <= i < j < list.len() ==> list[i]@ != list[j]@
}

/// Tells whether one of `list` reads `s`.
pub fn contains_str(list: &Vec<String>, s: &str) -> (out: bool)
    ensures
        out == holds(list@, s@),
{
    let mut i: usize = 0;
    while i < list.len()
        invariant
            i <= list.len(),
            forall|j: int| 0 <= j < i ==> list@[j]@ != s@,
        decreases list.len() - i,
    {
        if list[i].as_str().eq(s) {
            return true;
        }
        i += 1;
    }
    false
}

/// The tags that a comma-separated list names: each piece trimmed and in upper case, empty
/// ones left out, each tag once, in the order of first appearance.
pub open spec fn tags(pieces: Seq<Seq<char>>) -> Seq<Seq<char>>
    decreases pieces.len(),
{
    if pieces.len() == 0 {
        Seq::<Seq<char>>::empty()
    } else {
        let before = tags(pieces.drop_last());
        let tag = uppercase(trimmed(pieces.last()));
        if tag.len() == 0 || before.contains(tag) {
            before
        } else {
            before.push(tag)
        }
    }
}

/// The tags of a list are what its pieces read once trimmed and in upper case, the empty ones
/// left out, and each of them is listed once.
pub proof fn lemma_tags_members(pieces: Seq<Seq<char>>)
    ensures
        tags(pieces).no_duplicates(),
        forall|t: Seq<char>| #[trigger]
            tags(pieces).contains(t) <==> t.len() > 0 && exists|i: int|
                0 <= i < pieces.len() && t == uppercase(trimmed(#[trigger] pieces[i])),
    decreases pieces.len(),
{
    if pieces.len() > 0 {
        let init = pieces.drop_last();
        lemma_tags_members(init);
        let before = tags(init);
        let tag = uppercase(trimmed(pieces.last()));
        let all = tags(pieces);
        assert forall|t: Seq<char>| #[trigger]
            all.contains(t) <==> t.len() > 0 && exists|i: int|
                0 <= i < pieces.len() && t == uppercase(trimmed(#[trigger] pieces[i])) by {
            if all.contains(t) {
                let k = choose|k: int| 0 <= k < all.len() && all[k] == t;
                if k < before.len() {
                    assert(before[k] == t);
                    assert(before.contains(t));
                    let i = choose|i: int|
                        0 <= i < init.len() && t == uppercase(trimmed(#[trigger] init[i]));
                    assert(pieces[i] == init[i]);
                } else {
                    assert(t == tag);
                    assert(t == uppercase(trimmed(pieces[pieces.len() - 1])));
                }
            }
            if t.len() > 0 && exists|i: int|
                0 <= i < pieces.len() && t == uppercase(trimmed(#[trigger] pieces[i])) {
                let i = choose|i: int|
                    0 <= i < pieces.len() && t == uppercase(trimmed(#[trigger] pieces[i]));
                if i < init.len() {
                    assert(init[i] == pieces[i]);
                    assert(before.contains(t));
                    let k = choose|k: int| 0 <= k < before.len() && before[k] == t;
                    assert(all[k] == t);
                } else {
                    assert(t == tag);
                    if before.contains(tag) {
                        let k = choose|k: int| 0 <= k < before.len() && before[k] == t;
                        assert(all[k] == t);
                    } else {
                        assert(all[before.len() as int] == t);
                    }
                }
            }
        }
        if !(tag.len() == 0 || before.contains(tag)) {
            assert forall|i: int, j: int|
                0 <= i < all.len() && 0 <= j < all.len() && i != j implies all[i] != all[j] by {
                if i < before.len() && j < before.len() {
                } else if i < before.len() {
                    assert(before[i] != tag);
                } else {
                    assert(before[j] != tag);
                }
            }
        }
    }
}

/// Reads a comma-separated list of tags.
pub fn tag_list(raw: &str) -> (out: Vec<String>)
    ensures
        views(out@) == tags(split(raw@, ',')),
        distinct(out@),
{
    let pieces = split_on(raw, ',');
    let mut out: Vec<String> = Vec::new();
    let mut i: usize = 0;
    assert(views(pieces@).take(0) =~= Seq::<Seq<char>>::empty());
    assert(views(out@) =~= Seq::<Seq<char>>::empty());
    while i < pieces.len()
        invariant
            i <= pieces.len(),
            views(out@) == tags(views(pieces@).take(i as int)),
            distinct(out@),
        decreases pieces.len() - i,
    {
        let tag = to_upper(trim(pieces[i].as_str()).as_str());
        proof {
            let upto = views(pieces@).take(i as int + 1);
            assert(upto.drop_last() =~= views(pieces@).take(i as int));
            assert(upto.last() == pieces@[i as int]@);
            lemma_holds_views(out@, tag@);
        }
        if !tag.as_str().is_empty() && !contains_str(&out, tag.as_str()) {
            let ghost old_out = out@;
            out.push(tag);
            assert(views(out@) =~= views(old_out).push(out@.last()@));
        }
        i += 1;
    }
    assert(views(pieces@).take(pieces@.len() as int) =~= views(pieces@));
    out
}

/// `holds` says of the strings what `contains` says of their views.
pub proof fn lemma_holds_views(list: Seq<String>, s: Seq<char>)
    ensures
        holds(list, s) == views(list).contains(s),
{
    if holds(list, s) {
        let i = choose|i: int| 0 <= i < list.len() && #[trigger] list[i]@ == s;
        assert(views(list)[i] == s);
    }
    if views(list).contains(s) {
        let i = choose|i: int| 0 <= i < views(list).len() && views(list)[i] == s;
        assert(list[i]@ == s);
    }
}

/// The characters of `s`, in order.
pub fn chars_of(s: &str) -> (out: Vec<char>)
    ensures
        out@ == s@,
{
    let mut out: Vec<char> = Vec::new();
    for c in it: s.chars()
        invariant
            it.seq() == s@,
            out@ == s@.take(it.index() as int),
    {
        let ghost before = out@;
        out.push(c);
        assert(out@ =~= s@.take(it.index() as int + 1));
    }
    assert(s@.take(s@.len() as int) =~= s@);
    out
}

/// The character that writes the digit `d`.
pub open spec fn digit_char(d: nat) -> char
    recommends
        d < 10,
{
    (48 + d) as char
}

/// The decimal digits of `n`, without leading zeros.
pub open spec fn decimal(n: nat) -> Seq<char>
    decreases n,
{
    if n < 10 {
        seq![digit_char(n)]
    } else {
        decimal(n / 10).push(digit_char(n % 10))
    }
}

/// Writes `n` in decimal.
pub fn to_decimal(n: u64) -> (out: String)
    ensures
        out@ == decimal(n as nat),
    decreases n,
{
    if n < 10 {
        let mut out: String = String::new();
        out.push((48u8 + n as u8) as char);
        assert(out@ =~= seq![digit_char(n as nat)]);
        out
    } else {
        let mut out: String = to_decimal(n / 10);
        out.push((48u8 + (n % 10) as u8) as char);
        out
    }
}

/// The value of a decimal digit.
pub open spec fn digit_value(c: char) -> Option<nat> {
    if '0' <= c && c <= '9' {
        Some((c as nat - 48) as nat)
    } else {
        None
    }
}

/// Whether `s` consists of decimal digits only.
pub open spec fn all_digits(s: Seq<char>) -> bool {
    forall|i: int| 0 <= i < s.len() ==> (#[trigger] digit_value(s[i])) is Some
}

/// The number that a string of decimal digits writes.
pub open spec fn digits_value(s: Seq<char>) -> nat
    decreases s.len(),
{
    if s.len() == 0 {
        0
    } else {
        digits_value(s.drop_last()) * 10 + digit_value(s.last()).unwrap_or(0)
    }
}

/// The unsigned number that `s` writes: decimal digits, at least one, after an optional `+`,
/// with a value that a `u64` holds.
pub open spec fn unsigned(s: Seq<char>) -> Option<u64> {
    let body = if s.len() > 0 && s[0] == '+' {
        s.drop_first()
    } else {
        s
    };
    if body.len() > 0 && all_digits(body) && digits_value(body) <= u64::MAX {
        Some(digits_value(body) as u64)
    } else {
        None
    }
}

proof fn lemma_digits_value_grows(s: Seq<char>, k: int)
    requires
        0 <= k <= s.len(),
    ensures
        digits_value(s.take(k)) <= digits_value(s),
    decreases s.len() - k,
{
    if k < s.len() {
        lemma_digits_value_grows(s, k + 1);
        assert(s.take(k + 1).drop_last() =~= s.take(k));
    } else {
        assert(s.take(k) =~= s);
    }
}

/// Reads an unsigned decimal number.
pub fn parse_u64(s: &str) -> (out: Option<u64>)
    ensures
        out == unsigned(s@),
{
    let chars = chars_of(s);
    let start: usize = if chars.len() > 0 && chars[0] == '+' {
        1
    } else {
        0
    };
    let ghost body = s@.skip(start as int);
    assert(start == 1 ==> body =~= s@.drop_first());
    assert(start == 0 ==> body =~= s@);
    if chars.len() == start {
        return None;
    }
    let mut value: u64 = 0;
    let mut i: usize = start;
    assert(body.take(0) =~= Seq::<char>::empty());
    while i < chars.len()
        invariant
            start <= i <= chars.len(),
            chars@ == s@,
            body == s@.skip(start as int),
            body.len() > 0,
            unsigned(s@) == if all_digits(body) && digits_value(body) <= u64::MAX {
                Some(digits_value(body) as u64)
            } else {
                None
            },
            all_digits(body.take(i - start)),
            value == digits_value(body.take(i - start)),
        decreases chars.len() - i,
    {
        let c: char = chars[i];
        let ghost k = i - start;
        proof {
            assert(body[k] == c);
            assert(body.take(k + 1).drop_last() =~= body.take(k));
            assert(body.take(k + 1).last() == c);
        }
        if c < '0' || c > '9' {
            assert(digit_value(body[k]) is None);
            return None;
        }
        let d: u64 = (c as u32 - 48) as u64;
        assert(digit_value(c) == Some(d as nat));
        assert(digits_value(body.take(k + 1)) == value * 10 + d);
        if value > (u64::MAX - d) / 10 {
            proof {
                lemma_digits_value_grows(body, k + 1);
            }
            return None;
        }
        value = value * 10 + d;
        proof {
            assert forall|j: int| 0 <= j < body.take(k + 1).len() implies (#[trigger] digit_value(
                body.take(k + 1)[j],
            )) is Some by {
                if j < k {
                    assert(body.take(k + 1)[j] == body.take(k)[j]);
                }
            }
        }
        i += 1;
    }
    assert(body.take(body.len() as int) =~= body);
    Some(value)
}

/// A character with an upper-case ASCII letter turned into its lower-case form.
pub open spec fn ascii_lower(c: char) -> char {
    if 'A' <= c && c <= 'Z' {
        ((c as u8) + 32) as char
    } else {
        c
    }
}

/// Whether two strings read the same once the case of ASCII letters is left aside.
pub open spec fn same_ignoring_ascii_case(a: Seq<char>, b: Seq<char>) -> bool {
    a.len() == b.len() && forall|i: int|
        0 <= i < a.len() ==> ascii_lower(#[trigger] a[i]) == ascii_lower(b[i])
}

fn lower(c: char) -> (out: char)
    ensures
        out == ascii_lower(c),
{
    if 'A' <= c && c <= 'Z' {
        ((c as u8) + 32) as char
    } else {
        c
    }
}

/// Compares two strings without regard to the case of ASCII letters.
pub fn eq_ignore_ascii_case(a: &str, b: &str) -> (out: bool)
    ensures
        out == same_ignoring_ascii_case(a@, b@),
{
    let left = chars_of(a);
    let right = chars_of(b);
    if left.len() != right.len() {
        return false;
    }
    let mut i: usize = 0;
    while i < left.len()
        invariant
            i <= left.len(),
            left.len() == right.len(),
            left@ == a@,
            right@ == b@,
            forall|j: int| 0 <= j < i ==> ascii_lower(#[trigger] a@[j]) == ascii_lower(b@[j]),
        decreases left.len() - i,
    {
        if lower(left[i]) != lower(right[i]) {
            return false;
        }
        i += 1;
    }
    true
}

/// `a` followed by `b`.
pub fn chain(a: &str, b: &str) -> (out: String)
    ensures
        out@ == a@ + b@,
{
    let mut out: String = a.to_owned();
    out.append(b);
    out
}

/// The decimal digits of `n`, after a minus sign where `n` is negative.
pub open spec fn signed_decimal(n: int) -> Seq<char> {
    if n < 0 {
        seq!['-'] + decimal((-n) as nat)
    } else {
        decimal(n as nat)
    }
}

/// Writes `n` in decimal.
pub fn to_signed_decimal(n: i64) -> (out: String)
    ensures
        out@ == signed_decimal(n as int),
{
    if n < 0 {
        let magnitude: u64 = (-(n as i128)) as u64;
        proof {
            reveal_strlit("-");
        }
        let out = chain("-", to_decimal(magnitude).as_str());
        assert(out@ =~= seq!['-'] + decimal((-n) as nat));
        out
    } else {
        to_decimal(n as u64)
    }
}

} // verus!
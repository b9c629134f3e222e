//! Character-level text handling: whitespace, trimming and splitting a line
//! into comma-separated fields.
//!
//! Text is processed as a vector of characters whose view is the `Seq<char>`
//! that the contracts speak of.

use vstd::prelude::*;

verus! {

/// `String::push` of the standard library: the string afterwards is the
/// string before with `ch` appended at its end.
pub assume_specification[ String::push ](s: &mut String, ch: char)
    ensures
        final(s)@ == old(s)@.push(ch),
;

/// The characters of `s`, in order.
pub fn chars_of(s: &str) -> (r: Vec<char>)
    ensures
        r@ == s@,
{
    let mut out: Vec<char> = Vec::new();
    for c in it: s.chars()
        invariant
            out@ == it.seq().take(it.index()),
    {
        out.push(c);
    }
    out
}

/// The string made of the characters `chars`, in order.
pub fn string_of(chars: &Vec<char>) -> (r: String)
    ensures
        r@ == chars@,
{
    let mut out = String::new();
    let mut i: usize = 0;
    while i < chars.len()
        invariant
            i <= chars.len(),
            out@ == chars@.take(i as int),
        decreases chars.len() - i,
    {
        out.push(chars[i]);
        i += 1;
    }
    out
}

/// Whether `chars` holds exactly the characters of `text`.
pub fn same_text(chars: &Vec<char>, text: &str) -> (r: bool)
    ensures
        r == (chars@ == text@),
{
    let other = chars_of(text);
    if other.len() != chars.len() {
        return false;
    }
    let mut i: usize = 0;
    while i < chars.len()
        invariant
            i <= chars.len(),
            other.len() == chars.len(),
            other@ == text@,
            chars@.take(i as int) == other@.take(i as int),
        decreases chars.len() - i,
    {
        if chars[i] != other[i] {
            return false;
        }
        assert(chars@.take(i + 1) =~= chars@.take(i as int).push(chars@[i as int]));
        assert(other@.take(i + 1) =~= other@.take(i as int).push(other@[i as int]));
        i += 1;
    }
    assert(chars@.take(i as int) =~= chars@);
    assert(other@.take(i as int) =~= other@);
    true
}

/// Whether `c` has the Unicode property White_Space.
pub open spec fn is_space(c: char) -> bool {
    let n = c as u32;
    ||| 0x09 <= n <= 0x0D
    ||| n == 0x20
    ||| n == 0x85
    ||| n == 0xA0
    ||| n == 0x1680
    ||| 0x2000 <= n <= 0x200A
    ||| n == 0x2028
    ||| n == 0x2029
    ||| n == 0x202F
    ||| n == 0x205F
    ||| n == 0x3000
}

/// Whether `c` is whitespace.
pub fn is_whitespace(c: char) -> (r: bool)
    ensures
        r == is_space(c),
{
    let n: u32 = c as u32;
    (0x09 <= n && n <= 0x0D) || n == 0x20 || n == 0x85 || n == 0xA0 || n == 0x1680 || (0x2000 <= n
        && n <= 0x200A) || n == 0x2028 || n == 0x2029 || n == 0x202F || n == 0x205F || n == 0x3000
}

/// `s` without its leading whitespace.
pub open spec fn trim_front(s: Seq<char>) -> Seq<char>
    decreases s.len(),
{
    if s.len() > 0 && is_space(s.first()) {
        trim_front(s.drop_first())
    } else {
        s
    }
}

/// `s` without its trailing whitespace.
pub open spec fn trim_back(s: Seq<char>) -> Seq<char>
    decreases s.len(),
{
    if s.len() > 0 && is_space(s.last()) {
        trim_back(s.drop_last())
    } else {
        s
    }
}

/// `s` without leading and trailing whitespace.
pub open spec fn trimmed(s: Seq<char>) -> Seq<char> {
    trim_back(trim_front(s))
}

/// Removes leading and trailing whitespace.
pub fn trim(chars: &Vec<char>) -> (r: Vec<char>)
    ensures
        r@ == trimmed(chars@),
{
    let ghost s = chars@;
    let mut start: usize = 0;
    assert(s.skip(0) =~= s);
    while start < chars.len() && is_whitespace(chars[start])
        invariant
            start <= chars.len(),
            s == chars@,
            trim_front(s) == trim_front(s.skip(start as int)),
        decreases chars.len() - start,
    {
        assert(s.skip(start as int).drop_first() =~= s.skip(start + 1));
        start += 1;
    }
    assert(trim_front(s) == s.skip(start as int));
    let mut end: usize = chars.len();
    assert(s.skip(start as int) =~= s.subrange(start as int, end as int));
    while end > start && is_whitespace(chars[end - 1])
        invariant
            start <= end <= chars.len(),
            s == chars@,
            trimmed(s) == trim_back(s.subrange(start as int, end as int)),
        decreases end,
    {
        assert(s.subrange(start as int, end as int).drop_last() =~= s.subrange(
            start as int,
            end - 1,
        ));
        end -= 1;
    }
    let mut out: Vec<char> = Vec::new();
    let mut i: usize = start;
    while i < end
        invariant
            start <= i <= end <= chars.len(),
            s == chars@,
            out@ == s.subrange(start as int, i as int),
        decreases end - i,
    {
        out.push(chars[i]);
        i += 1;
    }
    out
}

/// The fields of `s`: the pieces between its commas. A text with `n` commas
/// has `n + 1` fields, some of which may be empty.
pub open spec fn split_fields(s: Seq<char>) -> Seq<Seq<char>>
    decreases s.len(),
{
    if s.len() == 0 {
        seq![Seq::<char>::empty()]
    } else {
        let before = split_fields(s.drop_last());
        if s.last() == ',' {
            before.push(Seq::<char>::empty())
        } else {
            before.drop_last().push(before.last().push(s.last()))
        }
    }
}

/// The views of the fields held in `fields`.
pub open spec fn field_views(fields: Seq<Vec<char>>) -> Seq<Seq<char>> {
    Seq::new(fields.len(), |i: int| fields[i]@)
}

/// Splits a line at each comma.
pub fn split(chars: &Vec<char>) -> (r: Vec<Vec<char>>)
    ensures
        field_views(r@) == split_fields(chars@),
{
    let ghost s = chars@;
    let mut fields: Vec<Vec<char>> = Vec::new();
    let mut current: Vec<char> = Vec::new();
    let mut i: usize = 0;
    assert(s.take(0).len() == 0);
    assert(field_views(fields@).push(current@) =~= split_fields(s.take(0)));
    while i < chars.len()
        invariant
            i <= chars.len(),
            s == chars@,
            field_views(fields@).push(current@) == split_fields(s.take(i as int)),
        decreases chars.len() - i,
    {
        let c = chars[i];
        let ghost before = split_fields(s.take(i as int));
        assert(s.take(i + 1).drop_last() =~= s.take(i as int));
        assert(s.take(i + 1).last() == c);
        let ghost old_fields = fields@;
        let ghost old_current = current@;
        if c == ',' {
            fields.push(current);
            current = Vec::new();
            assert(field_views(fields@) =~= field_views(old_fields).push(old_current));
        } else {
            current.push(c);
            assert(before.drop_last() =~= field_views(old_fields));
        }
        i += 1;
    }
    assert(s.take(i as int) =~= s);
    let ghost old_fields = fields@;
    fields.push(current);
    assert(field_views(fields@) =~= field_views(old_fields).push(current@));
    fields
}

/// Whether every character of `s` is an ASCII character.
pub open spec fn is_ascii_text(s: Seq<char>) -> bool {
    forall|i: int| 0 <= i < s.len() ==> (#[trigger] s[i] as u32) < 128
}

/// The upper-case form of an ASCII letter; any other character unchanged.
pub open spec fn ascii_upper(c: char) -> char {
    if 'a' <= c && c <= 'z' {
        ((c as u32) - 32) as char
    } else {
        c
    }
}

/// The lower-case form of an ASCII letter; any other character unchanged.
pub open spec fn ascii_lower(c: char) -> char {
    if 'A' <= c && c <= 'Z' {
        ((c as u32) + 32) as char
    } else {
        c
    }
}

/// What `str::to_uppercase` returns for the text `s`.
pub uninterp spec fn unicode_uppercase(s: Seq<char>) -> Seq<char>;

/// What `str::to_lowercase` returns for the text `s`.
pub uninterp spec fn unicode_lowercase(s: Seq<char>) -> Seq<char>;

/// Calls `str::to_uppercase`, the upper-case mapping of the Unicode
/// standard. The contract only gives the result its name.
#[verifier::external_body]
fn std_uppercase(s: &str) -> (r: String)
    ensures
        r@ == unicode_uppercase(s@),
{
    s.to_uppercase()
}

/// Calls `str::to_lowercase`, the lower-case mapping of the Unicode
/// standard. The contract only gives the result its name.
#[verifier::external_body]
fn std_lowercase(s: &str) -> (r: String)
    ensures
        r@ == unicode_lowercase(s@),
{
    s.to_lowercase()
}

/// The upper-case form of `s`: letter by letter for ASCII text, the Unicode
/// mapping for any other text.
pub open spec fn uppercased(s: Seq<char>) -> Seq<char> {
    if is_ascii_text(s) {
        Seq::new(s.len(), |i: int| ascii_upper(s[i]))
    } else {
        unicode_uppercase(s)
    }
}

/// The lower-case form of `s`: letter by letter for ASCII text, the Unicode
/// mapping for any other text.
pub open spec fn lowercased(s: Seq<char>) -> Seq<char> {
    if is_ascii_text(s) {
        Seq::new(s.len(), |i: int| ascii_lower(s[i]))
    } else {
        unicode_lowercase(s)
    }
}

/// Whether every character of `chars` is an ASCII character.
pub fn is_ascii(chars: &Vec<char>) -> (r: bool)
    ensures
        r == is_ascii_text(chars@),
{
    let mut i: usize = 0;
    while i < chars.len()
        invariant
            i <= chars.len(),
            is_ascii_text(chars@.take(i as int)),
        decreases chars.len() - i,
    {
        if chars[i] as u32 >= 128 {
            return false;
        }
        assert(forall|j: int| 0 <= j < i + 1 ==> chars@.take(i + 1)[j] == chars@[j]);
        assert(forall|j: int| 0 <= j < i ==> chars@.take(i as int)[j] == chars@[j]);
        i += 1;
    }
    assert(chars@.take(i as int) =~= chars@);
    true
}

fn upper_char(c: char) -> (r: char)
    ensures
        r == ascii_upper(c),
{
    if 'a' <= c && c <= 'z' {
        let n: u32 = c as u32;
        let m: u8 = (n - 32) as u8;
        m as char
    } else {
        c
    }
}

fn lower_char(c: char) -> (r: char)
    ensures
        r == ascii_lower(c),
{
    if 'A' <= c && c <= 'Z' {
        let n: u32 = c as u32;
        let m: u8 = (n + 32) as u8;
        m as char
    } else {
        c
    }
}

/// Converts text to upper case.
pub fn to_upper(chars: &Vec<char>) -> (r: Vec<char>)
    ensures
        r@ == uppercased(chars@),
{
    if is_ascii(chars) {
        let mut out: Vec<char> = Vec::new();
        let mut i: usize = 0;
        while i < chars.len()
            invariant
                i <= chars.len(),
                out@ == Seq::new(i as nat, |j: int| ascii_upper(chars@[j])),
            decreases chars.len() - i,
        {
            out.push(upper_char(chars[i]));
            i += 1;
        }
        out
    } else {
        let text = string_of(chars);
        let upper = std_uppercase(text.as_str());
        chars_of(upper.as_str())
    }
}

/// Converts text to lower case.
pub fn to_lower(chars: &Vec<char>) -> (r: Vec<char>)
    ensures
        r@ == lowercased(chars@),
{
    if is_ascii(chars) {
        let mut out: Vec<char> = Vec::new();
        let mut i: usize = 0;
        while i < chars.len()
            invariant
                i <= chars.len(),
                out@ == Seq::new(i as nat, |j: int| ascii_lower(chars@[j])),
            decreases chars.len() - i,
        {
            out.push(lower_char(chars[i]));
            i += 1;
        }
        out
    } else {
        let text = string_of(chars);
        let lower = std_lowercase(text.as_str());
        chars_of(lower.as_str())
    }
}

/// Converting ASCII text to upper case a second time changes nothing.
pub proof fn lemma_upper_idempotent(s: Seq<char>)
    requires
        is_ascii_text(s),
    ensures
        is_ascii_text(uppercased(s)),
        uppercased(uppercased(s)) == uppercased(s),
{
    let u = uppercased(s);
    assert forall|i: int| 0 <= i < u.len() implies (#[trigger] u[i] as u32) < 128 by {
        assert((s[i] as u32) < 128);
    }
    assert(uppercased(u) =~= u);
}

/// What is left of `s` without its leading whitespace is the end of `s`,
/// and does not begin with whitespace.
pub proof fn lemma_trim_front(s: Seq<char>)
    ensures
        trim_front(s).len() <= s.len(),
        trim_front(s) == s.skip(s.len() - trim_front(s).len()),
        trim_front(s).len() > 0 ==> !is_space(trim_front(s).first()),
    decreases s.len(),
{
    if s.len() > 0 && is_space(s.first()) {
        lemma_trim_front(s.drop_first());
        let rest = trim_front(s.drop_first());
        assert(s.drop_first().skip(s.len() - 1 - rest.len()) =~= s.skip(s.len() - rest.len()));
    } else {
        assert(s.skip(0) =~= s);
    }
}

/// What is left of `s` without its trailing whitespace is the beginning of
/// `s`, and does not end with whitespace.
pub proof fn lemma_trim_back(s: Seq<char>)
    ensures
        trim_back(s).len() <= s.len(),
        trim_back(s) == s.take(trim_back(s).len() as int),
        trim_back(s).len() > 0 ==> !is_space(trim_back(s).last()),
    decreases s.len(),
{
    if s.len() > 0 && is_space(s.last()) {
        lemma_trim_back(s.drop_last());
        let rest = trim_back(s.drop_last());
        assert(s.drop_last().take(rest.len() as int) =~= s.take(rest.len() as int));
    } else {
        assert(s.take(s.len() as int) =~= s);
    }
}

/// Trimmed text is a piece of the text it was made from, and neither begins
/// nor ends with whitespace.
pub proof fn lemma_trimmed(s: Seq<char>)
    ensures
        trimmed(s).len() <= s.len(),
        exists|from: int|
            0 <= from <= s.len() - trimmed(s).len() && trimmed(s) == #[trigger] s.subrange(
                from,
                from + trimmed(s).len(),
            ),
        trimmed(s).len() > 0 ==> !is_space(trimmed(s).first()) && !is_space(trimmed(s).last()),
{
    lemma_trim_front(s);
    let front = trim_front(s);
    lemma_trim_back(front);
    let from = s.len() - front.len();
    assert(trimmed(s) =~= s.subrange(from, from + trimmed(s).len()));
}

/// Trimming text that neither begins nor ends with whitespace changes
/// nothing; so trimming a second time changes nothing.
pub proof fn lemma_trim_idempotent(s: Seq<char>)
    ensures
        s.len() == 0 || (!is_space(s.first()) && !is_space(s.last())) ==> trimmed(s) == s,
        trimmed(trimmed(s)) == trimmed(s),
{
    lemma_trimmed(s);
}

/// Trimming and converting ASCII text to upper case a second time changes
/// nothing: a name that is already trimmed and in upper case stays as it is.
pub proof fn lemma_normalize_idempotent(s: Seq<char>)
    requires
        is_ascii_text(s),
    ensures
        uppercased(trimmed(uppercased(trimmed(s)))) == uppercased(trimmed(s)),
{
    lemma_trimmed(s);
    let t = trimmed(s);
    let from = choose|from: int|
        0 <= from <= s.len() - t.len() && t == #[trigger] s.subrange(from, from + t.len());
    assert forall|i: int| 0 <= i < t.len() implies (#[trigger] t[i] as u32) < 128 by {
        assert(t[i] == s[from + i]);
    }
    lemma_upper_idempotent(t);
    let u = uppercased(t);
    if u.len() > 0 {
        assert(!is_space(t.first()) && !is_space(t.last()));
        assert(u.first() == ascii_upper(t.first()));
        assert(u.last() == ascii_upper(t.last()));
    }
    lemma_trim_idempotent(u);
}

/// The fields `fields` written one behind the other with a comma between
/// each two of them.
pub open spec fn join_fields(fields: Seq<Seq<char>>) -> Seq<char>
    decreases fields.len(),
{
    if fields.len() == 0 {
        Seq::empty()
    } else if fields.len() == 1 {
        fields[0]
    } else {
        join_fields(fields.drop_last()).push(',') + fields.last()
    }
}

/// Splitting loses nothing: a text has one field more than it has commas, no
/// field holds a comma, and the fields joined by commas are the text again.
pub proof fn lemma_split_join(s: Seq<char>)
    ensures
        split_fields(s).len() >= 1,
        forall|i: int, j: int|
            0 <= i < split_fields(s).len() && 0 <= j < split_fields(s)[i].len()
                ==> split_fields(s)[i][j] != ',',
        join_fields(split_fields(s)) == s,
    decreases s.len(),
{
    if s.len() == 0 {
        assert(split_fields(s)[0] =~= Seq::<char>::empty());
    } else {
        lemma_split_join(s.drop_last());
        let before = split_fields(s.drop_last());
        let fields = split_fields(s);
        if s.last() == ',' {
            assert(fields.drop_last() =~= before);
            assert(join_fields(fields) =~= s.drop_last().push(','));
            assert(s.drop_last().push(',') =~= s);
        } else {
            let grown = before.last().push(s.last());
            assert(fields.last() == grown);
            if before.len() == 1 {
                assert(before[0] == s.drop_last());
                assert(grown =~= s);
            } else {
                assert(fields.drop_last() =~= before.drop_last());
                assert(join_fields(before) == join_fields(before.drop_last()).push(',')
                    + before.last());
                assert(join_fields(fields) =~= join_fields(before).push(s.last()));
                assert(s.drop_last().push(s.last()) =~= s);
            }
        }
    }
}

} // verus!

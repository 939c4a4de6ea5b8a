//! Text as a sequence of characters: the string operations that the rules use.
use vstd::prelude::*;
use vstd::string::*;

verus! {

/// `String::push` appends one character at the end.
pub assume_specification[ String::push ](text: &mut String, c: char)
    ensures
        final(text)@ == old(text)@.push(c),
;

// ---------------------------------------------------------------- white space

/// The characters with Unicode's `White_Space` property.
pub open spec fn is_space(c: char) -> bool {
    let n = c as u32;
    ||| 0x9 <= n <= 0xd
    ||| n == 0x20
    ||| n == 0x85
    ||| n == 0xa0
    ||| n == 0x1680
    ||| 0x2000 <= n <= 0x200a
    ||| n == 0x2028
    ||| n == 0x2029
    ||| n == 0x202f
    ||| n == 0x205f
    ||| n == 0x3000
}

/// `s` without its leading white space.
pub open spec fn trimmed_start(s: Seq<char>) -> Seq<char>
    decreases s.len(),
{
    if s.len() > 0 && is_space(s[0]) {
        trimmed_start(s.skip(1))
    } else {
        s
    }
}

/// `s` without its trailing white space.
pub open spec fn trimmed_end(s: Seq<char>) -> Seq<char>
    decreases s.len(),
{
    if s.len() > 0 && is_space(s.last()) {
        trimmed_end(s.drop_last())
    } else {
        s
    }
}

/// `s` without the white space around it.
pub open spec fn trimmed(s: Seq<char>) -> Seq<char> {
    trimmed_end(trimmed_start(s))
}

/// Nothing but white space.
pub open spec fn is_blank(s: Seq<char>) -> bool {
    forall|i: int| 0 <= i < s.len() ==> is_space(#[trigger] s[i])
}

pub fn space(c: char) -> (result: bool)
    ensures
        result == is_space(c),
{
    let n: u32 = c as u32;
    (0x9 <= n && n <= 0xd) || n == 0x20 || n == 0x85 || n == 0xa0 || n == 0x1680 || (0x2000 <= n
        && n <= 0x200a) || n == 0x2028 || n == 0x2029 || n == 0x202f || n == 0x205f || n == 0x3000
}

/// Text that is blank is exactly the text that trims to nothing.
pub proof fn blank_trims_to_nothing(s: Seq<char>)
    ensures
        is_blank(s) <==> trimmed(s).len() == 0,
    decreases s.len(),
{
    blank_start(s);
    let t = trimmed_start(s);
    if t.len() > 0 {
        trimmed_end_keeps_head(t);
    }
}

/// Trimmed text does not end in white space.
pub proof fn trimmed_has_no_space_at_its_end(s: Seq<char>)
    ensures
        trimmed(s).len() > 0 ==> !is_space(trimmed(s).last()),
{
    trimmed_end_is_tight(trimmed_start(s));
}

proof fn trimmed_end_is_tight(s: Seq<char>)
    ensures
        trimmed_end(s).len() > 0 ==> !is_space(trimmed_end(s).last()),
    decreases s.len(),
{
    if s.len() > 0 && is_space(s.last()) {
        trimmed_end_is_tight(s.drop_last());
    }
}

proof fn blank_start(s: Seq<char>)
    ensures
        is_blank(s) <==> trimmed_start(s).len() == 0,
        trimmed_start(s).len() > 0 ==> !is_space(trimmed_start(s)[0]),
    decreases s.len(),
{
    if s.len() > 0 && is_space(s[0]) {
        blank_start(s.skip(1));
        assert forall|i: int| 0 <= i < s.len() && is_blank(s.skip(1)) implies is_space(
            #[trigger] s[i],
        ) by {
            if i > 0 {
                assert(s.skip(1)[i - 1] == s[i]);
            }
        }
        assert forall|i: int| 0 <= i < s.skip(1).len() && is_blank(s) implies is_space(
            #[trigger] s.skip(1)[i],
        ) by {
            assert(s.skip(1)[i] == s[i + 1]);
        }
    } else if s.len() > 0 {
        assert(!is_space(s[0]));
    }
}

proof fn trimmed_end_keeps_head(s: Seq<char>)
    requires
        s.len() > 0,
        !is_space(s[0]),
    ensures
        trimmed_end(s).len() > 0,
    decreases s.len(),
{
    if is_space(s.last()) {
        assert(s.len() > 1);
        assert(s.drop_last()[0] == s[0]);
        trimmed_end_keeps_head(s.drop_last());
    }
}

// ---------------------------------------------------- characters and strings

/// The characters of each text.
pub open spec fn texts(strings: Seq<String>) -> Seq<Seq<char>> {
    Seq::new(strings.len(), |i: int| strings[i]@)
}

/// The characters of a text, in order.
pub fn chars_of(text: &str) -> (result: Vec<char>)
    ensures
        result@ == text@,
{
    let mut result: Vec<char> = Vec::new();
    for c in it: text.chars()
        invariant
            it.seq() == text@,
            result@ == text@.take(it.index() as int),
    {
        proof {
            assert(text@.take(it.index() as int + 1) =~= text@.take(it.index() as int).push(
                text@[it.index() as int],
            ));
        }
        result.push(c);
    }
    assert(text@.take(text@.len() as int) =~= text@);
    result
}

/// The part `from..to` of some characters, as a string.
pub fn string_of(chars: &Vec<char>, from: usize, to: usize) -> (result: String)
    requires
        from <= to <= chars@.len(),
    ensures
        result@ == chars@.subrange(from as int, to as int),
{
    let mut result = String::new();
    let mut i: usize = from;
    assert(chars@.subrange(from as int, from as int) =~= Seq::<char>::empty());
    while i < to
        invariant
            from <= i <= to <= chars@.len(),
            result@ == chars@.subrange(from as int, i as int),
        decreases to - i,
    {
        result.push(chars[i]);
        proof {
            assert(chars@.subrange(from as int, i + 1) =~= chars@.subrange(
                from as int,
                i as int,
            ).push(chars@[i as int]));
        }
        i += 1;
    }
    result
}

/// Whether two texts hold the same characters.
pub fn same(a: &str, b: &str) -> (result: bool)
    ensures
        result == (a@ == b@),
{
    let left = a.to_owned();
    let right = b.to_owned();
    left == right
}

/// `a` followed by `b`.
pub fn join2(a: &str, b: &str) -> (result: String)
    ensures
        result@ == a@ + b@,
{
    let mut result = a.to_owned();
    result.append(b);
    result
}

/// `a`, then `b`, then `c`.
pub fn join3(a: &str, b: &str, c: &str) -> (result: String)
    ensures
        result@ == a@ + b@ + c@,
{
    let mut result = a.to_owned();
    result.append(b);
    result.append(c);
    result
}

/// Removes the white space around a text.
pub fn trim(text: &str) -> (result: String)
    ensures
        result@ == trimmed(text@),
{
    let chars = chars_of(text);
    let mut from: usize = 0;
    assert(chars@.skip(0) =~= chars@);
    while from < chars.len() && space(chars[from])
        invariant
            from <= chars@.len(),
            trimmed_start(chars@.skip(from as int)) == trimmed_start(chars@),
        decreases chars@.len() - from,
    {
        assert(chars@.skip(from as int).skip(1) =~= chars@.skip(from + 1));
        from += 1;
    }
    let ghost rest = chars@.skip(from as int);
    assert(trimmed_start(chars@) == rest);
    let mut to: usize = chars.len();
    assert(chars@.subrange(from as int, to as int) =~= rest);
    while from < to && space(chars[to - 1])
        invariant
            from <= to <= chars@.len(),
            trimmed_end(chars@.subrange(from as int, to as int)) == trimmed_end(rest),
        decreases to - from,
    {
        let ghost part = chars@.subrange(from as int, to as int);
        assert(part.last() == chars@[to - 1]);
        assert(part.drop_last() =~= chars@.subrange(from as int, to - 1));
        to -= 1;
    }
    proof {
        let part = chars@.subrange(from as int, to as int);
        if from < to {
            assert(part.last() == chars@[to - 1]);
        }
    }
    string_of(&chars, from, to)
}

/// Whether a text holds nothing but white space.
pub fn blank(text: &str) -> (result: bool)
    ensures
        result == is_blank(text@),
        result == (trimmed(text@).len() == 0),
{
    let chars = chars_of(text);
    let mut i: usize = 0;
    while i < chars.len() && space(chars[i])
        invariant
            i <= chars@.len(),
            forall|j: int| 0 <= j < i ==> is_space(#[trigger] chars@[j]),
        decreases chars@.len() - i,
    {
        i += 1;
    }
    proof {
        blank_trims_to_nothing(text@);
        if i < chars@.len() {
            assert(!is_space(text@[i as int]));
        }
    }
    i == chars.len()
}

// ------------------------------------------------------------------ searching

/// `part` stands in `s` at position `i`.
pub open spec fn occurs_at(s: Seq<char>, part: Seq<char>, i: int) -> bool {
    0 <= i && i + part.len() <= s.len() && s.subrange(i, i + part.len()) == part
}

/// `part` stands somewhere in `s`.
pub open spec fn holds(s: Seq<char>, part: Seq<char>) -> bool {
    exists|i: int| #[trigger] occurs_at(s, part, i)
}

/// `s` begins with `part`.
pub open spec fn begins(s: Seq<char>, part: Seq<char>) -> bool {
    occurs_at(s, part, 0)
}

/// The position of the first `c` in `s`, or the length of `s`.
pub open spec fn first_index(s: Seq<char>, c: char) -> int
    decreases s.len(),
{
    if s.len() == 0 || s[0] == c {
        0
    } else {
        1 + first_index(s.skip(1), c)
    }
}

/// Whether `part` stands in `chars` at position `at`.
pub fn matches_at(chars: &Vec<char>, part: &Vec<char>, at: usize) -> (result: bool)
    requires
        at <= chars@.len(),
    ensures
        result == occurs_at(chars@, part@, at as int),
{
    let total: usize = chars.len();
    if part.len() > total - at {
        return false;
    }
    let mut i: usize = 0;
    while i < part.len()
        invariant
            i <= part@.len(),
            total == chars@.len(),
            at + part@.len() <= total,
            forall|j: int| 0 <= j < i ==> chars@[at + j] == #[trigger] part@[j],
        decreases part@.len() - i,
    {
        if chars[at + i] != part[i] {
            assert(chars@.subrange(at as int, at + part@.len())[i as int] != part@[i as int]);
            return false;
        }
        i += 1;
    }
    assert(chars@.subrange(at as int, at + part@.len()) =~= part@);
    true
}

/// Whether `text` begins with `part`.
pub fn starts_with(text: &str, part: &str) -> (result: bool)
    ensures
        result == begins(text@, part@),
{
    let chars = chars_of(text);
    let wanted = chars_of(part);
    matches_at(&chars, &wanted, 0)
}

/// Whether `part` stands somewhere in `text`.
pub fn contains(text: &str, part: &str) -> (result: bool)
    ensures
        result == holds(text@, part@),
{
    let chars = chars_of(text);
    let wanted = chars_of(part);
    let mut i: usize = 0;
    while i < chars.len() && !matches_at(&chars, &wanted, i)
        invariant
            i <= chars@.len(),
            forall|j: int| 0 <= j < i ==> !occurs_at(chars@, wanted@, j),
        decreases chars@.len() - i,
    {
        i += 1;
    }
    let found = matches_at(&chars, &wanted, i);
    proof {
        if holds(text@, part@) {
            let j = choose|j: int| #[trigger] occurs_at(text@, part@, j);
            assert(0 <= j <= text@.len());
        }
    }
    found
}

/// The position of the first `c` at or after `from`, or the length.
pub fn index_of(chars: &Vec<char>, c: char, from: usize) -> (result: usize)
    requires
        from <= chars@.len(),
    ensures
        result == from + first_index(chars@.skip(from as int), c),
        from <= result <= chars@.len(),
{
    let mut i: usize = from;
    while i < chars.len() && chars[i] != c
        invariant
            from <= i <= chars@.len(),
            i + first_index(chars@.skip(i as int), c) == from + first_index(
                chars@.skip(from as int),
                c,
            ),
        decreases chars@.len() - i,
    {
        assert(chars@.skip(i as int).skip(1) =~= chars@.skip(i + 1));
        i += 1;
    }
    i
}

/// What stands in `s` before the first `part`; all of it where there is none.
pub open spec fn before(s: Seq<char>, part: Seq<char>) -> Seq<char>
    decreases s.len(),
{
    if s.len() == 0 || begins(s, part) {
        Seq::empty()
    } else {
        seq![s[0]] + before(s.skip(1), part)
    }
}

/// What stands in a text before the first `part`; all of it where there is none.
pub fn text_before(text: &str, part: &str) -> (result: String)
    ensures
        result@ == before(text@, part@),
{
    let chars = chars_of(text);
    let wanted = chars_of(part);
    let mut result = String::new();
    let mut i: usize = 0;
    assert(chars@.skip(0) =~= chars@);
    while i < chars.len() && !matches_at(&chars, &wanted, i)
        invariant
            i <= chars@.len(),
            result@ + before(chars@.skip(i as int), wanted@) == before(chars@, wanted@),
        decreases chars@.len() - i,
    {
        let ghost rest = chars@.skip(i as int);
        proof {
            begins_rest(chars@, wanted@, i as int);
            assert(rest.skip(1) =~= chars@.skip(i + 1));
        }
        let ghost done = result@;
        result.push(chars[i]);
        assert(result@ + before(chars@.skip(i + 1), wanted@) =~= done + before(rest, wanted@));
        i += 1;
    }
    proof {
        if i < chars@.len() {
            begins_rest(chars@, wanted@, i as int);
        }
        assert(result@ + Seq::<char>::empty() =~= result@);
    }
    result
}

/// What stands at a position begins the rest from there on.
pub proof fn begins_rest(s: Seq<char>, part: Seq<char>, i: int)
    requires
        0 <= i <= s.len(),
    ensures
        begins(s.skip(i), part) == occurs_at(s, part, i),
{
    if i + part.len() <= s.len() {
        assert(s.skip(i).subrange(0, part.len() as int) =~= s.subrange(i, i + part.len()));
    }
}

/// `s` without `part` in front, however often it stands there.
pub open spec fn without_front(s: Seq<char>, part: Seq<char>) -> Seq<char>
    decreases s.len(),
{
    if part.len() > 0 && begins(s, part) {
        without_front(s.skip(part.len() as int), part)
    } else {
        s
    }
}

/// Removes `part` in front of a text, however often it stands there.
pub fn strip_front(text: &str, part: &str) -> (result: String)
    ensures
        result@ == without_front(text@, part@),
{
    let chars = chars_of(text);
    let wanted = chars_of(part);
    let total: usize = chars.len();
    let mut from: usize = 0;
    assert(chars@.skip(0) =~= chars@);
    while wanted.len() > 0 && matches_at(&chars, &wanted, from)
        invariant
            from <= total,
            total == chars@.len(),
            without_front(chars@.skip(from as int), wanted@) == without_front(chars@, wanted@),
        decreases chars@.len() - from,
    {
        proof {
            begins_rest(chars@, wanted@, from as int);
            assert(chars@.skip(from as int).skip(wanted@.len() as int) =~= chars@.skip(
                from + wanted@.len(),
            ));
        }
        from += wanted.len();
    }
    proof {
        begins_rest(chars@, wanted@, from as int);
        assert(chars@.subrange(from as int, chars@.len() as int) =~= chars@.skip(from as int));
    }
    string_of(&chars, from, total)
}

/// The first line of a text, without the characters that end it.
pub open spec fn first_line(s: Seq<char>) -> Seq<char> {
    let n = first_index(s, '\n');
    if n == s.len() {
        s
    } else if n > 0 && s[n - 1] == '\r' {
        s.take(n - 1)
    } else {
        s.take(n)
    }
}

pub proof fn first_index_within(s: Seq<char>, c: char)
    ensures
        0 <= first_index(s, c) <= s.len(),
        first_index(s, c) < s.len() ==> s[first_index(s, c)] == c,
        forall|i: int| 0 <= i < first_index(s, c) ==> #[trigger] s[i] != c,
    decreases s.len(),
{
    if s.len() > 0 && s[0] != c {
        let rest = s.skip(1);
        first_index_within(rest, c);
        assert forall|i: int| 0 <= i < first_index(s, c) implies #[trigger] s[i] != c by {
            if i > 0 {
                assert(rest[i - 1] == s[i]);
            }
        }
    }
}

/// The first line of a text.
pub fn opening_line(text: &str) -> (result: String)
    ensures
        result@ == first_line(text@),
{
    let chars = chars_of(text);
    let n = index_of(&chars, '\n', 0);
    assert(chars@.skip(0) =~= chars@);
    let end: usize = if n < chars.len() && n > 0 && chars[n - 1] == '\r' {
        n - 1
    } else {
        n
    };
    assert(chars@.subrange(0, end as int) =~= chars@.take(end as int));
    assert(chars@.take(chars@.len() as int) =~= chars@);
    string_of(&chars, 0, end)
}

// ------------------------------------------------------------------ replacing

/// `s` with every occurrence of `part`, taken from the left and without overlap,
/// replaced by `with`.
pub open spec fn replaced(s: Seq<char>, part: Seq<char>, with: Seq<char>) -> Seq<char>
    decreases s.len(),
{
    if part.len() == 0 || s.len() == 0 {
        s
    } else if begins(s, part) {
        with + replaced(s.skip(part.len() as int), part, with)
    } else {
        seq![s[0]] + replaced(s.skip(1), part, with)
    }
}

/// Replaces every occurrence of a text that is not empty.
pub fn replace(text: &str, part: &str, with: &str) -> (result: String)
    requires
        part@.len() > 0,
    ensures
        result@ == replaced(text@, part@, with@),
{
    let chars = chars_of(text);
    let wanted = chars_of(part);
    let mut result = String::new();
    let mut i: usize = 0;
    assert(chars@.skip(0) =~= chars@);
    while i < chars.len()
        invariant
            i <= chars@.len(),
            wanted@ == part@,
            wanted@.len() > 0,
            result@ + replaced(chars@.skip(i as int), wanted@, with@) == replaced(
                chars@,
                wanted@,
                with@,
            ),
        decreases chars@.len() - i,
    {
        let ghost rest = chars@.skip(i as int);
        let ghost before = result@;
        if matches_at(&chars, &wanted, i) {
            assert(rest.subrange(0, wanted@.len() as int) =~= chars@.subrange(
                i as int,
                i + wanted@.len(),
            ));
            assert(rest.skip(wanted@.len() as int) =~= chars@.skip(i + wanted@.len()));
            result.append(with);
            i += wanted.len();
            assert(result@ + replaced(chars@.skip(i as int), wanted@, with@) =~= before + replaced(
                rest,
                wanted@,
                with@,
            ));
        } else {
            assert(!begins(rest, wanted@)) by {
                if begins(rest, wanted@) {
                    assert(rest.subrange(0, wanted@.len() as int) =~= chars@.subrange(
                        i as int,
                        i + wanted@.len(),
                    ));
                }
            }
            assert(rest.skip(1) =~= chars@.skip(i + 1));
            result.push(chars[i]);
            i += 1;
            assert(result@ + replaced(chars@.skip(i as int), wanted@, with@) =~= before + replaced(
                rest,
                wanted@,
                with@,
            ));
        }
    }
    assert(result@ + replaced(chars@.skip(i as int), wanted@, with@) =~= result@);
    result
}

/// `t`, laid over `with` so that its first character comes to stand at `i`, agrees
/// with it wherever the two meet.
pub open spec fn fits_over(t: Seq<char>, with: Seq<char>, i: int) -> bool {
    forall|k: int| 0 <= k < t.len() && 0 <= i + k < with.len() ==> #[trigger] t[k] == with[i + k]
}

/// No text in which `with` stands can hold `t` so that the two share a character.
pub open spec fn apart(t: Seq<char>, with: Seq<char>) -> bool {
    forall|i: int| -t.len() < i < with.len() ==> !#[trigger] fits_over(t, with, i)
}

/// A text that does not hold `part` is left as it is.
pub proof fn replaced_absent(s: Seq<char>, part: Seq<char>, with: Seq<char>)
    requires
        !holds(s, part),
    ensures
        replaced(s, part, with) == s,
    decreases s.len(),
{
    if part.len() > 0 && s.len() > 0 {
        assert(!occurs_at(s, part, 0));
        holds_in_rest(s, part, 1);
        replaced_absent(s.skip(1), part, with);
        assert(seq![s[0]] + s.skip(1) =~= s);
    }
}

/// What stands in the rest of a text stands in the text.
pub proof fn holds_in_rest(s: Seq<char>, part: Seq<char>, from: int)
    requires
        0 <= from <= s.len(),
    ensures
        holds(s.skip(from), part) ==> holds(s, part),
{
    if holds(s.skip(from), part) {
        let i = choose|i: int| #[trigger] occurs_at(s.skip(from), part, i);
        assert(s.subrange(from + i, from + i + part.len()) =~= s.skip(from).subrange(
            i,
            i + part.len(),
        ));
        assert(occurs_at(s, part, from + i));
    }
}

proof fn replaced_beginning(s: Seq<char>, part: Seq<char>, with: Seq<char>, t: Seq<char>)
    requires
        with.len() > 0,
        forall|i: int| -t.len() < i <= 0 ==> !#[trigger] fits_over(t, with, i),
        begins(replaced(s, part, with), t),
    ensures
        begins(s, t),
    decreases s.len(),
{
    let r = replaced(s, part, with);
    if t.len() == 0 {
        assert(s.subrange(0, 0) =~= t);
    } else if part.len() > 0 && s.len() > 0 {
        if begins(s, part) {
            assert forall|k: int| 0 <= k < t.len() && 0 <= 0 + k < with.len() implies #[trigger] t[k]
                == with[0 + k] by {
                assert(r.subrange(0, t.len() as int)[k] == t[k]);
                assert(r[k] == with[k]);
            }
            assert(fits_over(t, with, 0));
            assert(false);
        } else {
            let rest = replaced(s.skip(1), part, with);
            let tail = t.skip(1);
            assert(r.subrange(0, t.len() as int)[0] == t[0]);
            assert(rest.subrange(0, tail.len() as int) =~= r.subrange(0, t.len() as int).skip(1));
            assert forall|i: int| -tail.len() < i <= 0 implies !#[trigger] fits_over(
                tail,
                with,
                i,
            ) by {
                if fits_over(tail, with, i) {
                    assert forall|k: int| 0 <= k < t.len() && 0 <= (i - 1) + k < with.len() implies
                        #[trigger] t[k] == with[(i - 1) + k] by {
                        assert(tail[k - 1] == t[k]);
                    }
                    assert(fits_over(t, with, i - 1));
                }
            }
            replaced_beginning(s.skip(1), part, with, tail);
            assert(s.subrange(0, t.len() as int) =~= seq![s[0]] + s.skip(1).subrange(
                0,
                tail.len() as int,
            ));
            assert(t =~= seq![t[0]] + tail);
        }
    }
}

/// Replacing never brings forth a text that cannot share a character with the
/// replacement.
pub proof fn replaced_brings_nothing(
    s: Seq<char>,
    part: Seq<char>,
    with: Seq<char>,
    t: Seq<char>,
)
    requires
        with.len() > 0,
        t.len() > 0,
        apart(t, with),
        holds(replaced(s, part, with), t),
    ensures
        holds(s, t),
        part != t || s.len() == 0,
    decreases s.len(),
{
    let r = replaced(s, part, with);
    let at = choose|i: int| #[trigger] occurs_at(r, t, i);
    if part.len() > 0 && s.len() > 0 {
        if begins(s, part) {
            let n = part.len() as int;
            let rest = replaced(s.skip(n), part, with);
            if at < with.len() {
                assert forall|k: int| 0 <= k < t.len() && 0 <= at + k < with.len() implies
                    #[trigger] t[k] == with[at + k] by {
                    assert(r.subrange(at, at + t.len())[k] == t[k]);
                    assert(r[at + k] == with[at + k]);
                }
                assert(fits_over(t, with, at));
                assert(false);
            }
            assert(rest.subrange(at - with.len(), at - with.len() + t.len()) =~= r.subrange(
                at,
                at + t.len(),
            ));
            assert(occurs_at(rest, t, at - with.len()));
            replaced_brings_nothing(s.skip(n), part, with, t);
            holds_in_rest(s, t, n);
        } else if at == 0 {
            replaced_beginning(s, part, with, t);
            assert(occurs_at(s, t, 0));
        } else {
            let rest = replaced(s.skip(1), part, with);
            assert(rest.subrange(at - 1, at - 1 + t.len()) =~= r.subrange(at, at + t.len()));
            assert(occurs_at(rest, t, at - 1));
            replaced_brings_nothing(s.skip(1), part, with, t);
            holds_in_rest(s, t, 1);
        }
    }
}

// -------------------------------------------------------------------- numbers

/// The character of a decimal digit.
pub open spec fn digit(d: nat) -> char {
    if d == 0 {
        '0'
    } else if d == 1 {
        '1'
    } else if d == 2 {
        '2'
    } else if d == 3 {
        '3'
    } else if d == 4 {
        '4'
    } else if d == 5 {
        '5'
    } else if d == 6 {
        '6'
    } else if d == 7 {
        '7'
    } else if d == 8 {
        '8'
    } else {
        '9'
    }
}

/// A number in decimal, without leading zeros.
pub open spec fn decimal(n: nat) -> Seq<char>
    decreases n,
{
    if n < 10 {
        seq![digit(n)]
    } else {
        decimal(n / 10).push(digit(n % 10))
    }
}

fn digit_char(d: u64) -> (result: char)
    requires
        d < 10,
    ensures
        result == digit(d as nat),
{
    if d == 0 {
        '0'
    } else if d == 1 {
        '1'
    } else if d == 2 {
        '2'
    } else if d == 3 {
        '3'
    } else if d == 4 {
        '4'
    } else if d == 5 {
        '5'
    } else if d == 6 {
        '6'
    } else if d == 7 {
        '7'
    } else if d == 8 {
        '8'
    } else {
        '9'
    }
}

/// Writes a number in decimal.
pub fn number(n: u64) -> (result: String)
    ensures
        result@ == decimal(n as nat),
    decreases n,
{
    let mut result = if n < 10 {
        String::new()
    } else {
        number(n / 10)
    };
    result.push(digit_char(n % 10));
    assert(n < 10 ==> result@ =~= decimal(n as nat));
    result
}

/// The character of a hexadecimal digit.
pub open spec fn hex_digit(d: nat) -> char {
    if d < 10 {
        digit(d)
    } else if d == 10 {
        'a'
    } else if d == 11 {
        'b'
    } else if d == 12 {
        'c'
    } else if d == 13 {
        'd'
    } else if d == 14 {
        'e'
    } else {
        'f'
    }
}

/// A number in hexadecimal, without leading zeros.
pub open spec fn hexadecimal(n: nat) -> Seq<char>
    decreases n,
{
    if n < 16 {
        seq![hex_digit(n)]
    } else {
        hexadecimal(n / 16).push(hex_digit(n % 16))
    }
}

fn hex_char(d: u64) -> (result: char)
    requires
        d < 16,
    ensures
        result == hex_digit(d as nat),
{
    if d < 10 {
        digit_char(d)
    } else if d == 10 {
        'a'
    } else if d == 11 {
        'b'
    } else if d == 12 {
        'c'
    } else if d == 13 {
        'd'
    } else if d == 14 {
        'e'
    } else {
        'f'
    }
}

/// Writes a number in hexadecimal.
pub fn hex_number(n: u64) -> (result: String)
    ensures
        result@ == hexadecimal(n as nat),
    decreases n,
{
    let mut result = if n < 16 {
        String::new()
    } else {
        hex_number(n / 16)
    };
    result.push(hex_char(n % 16));
    assert(n < 16 ==> result@ =~= hexadecimal(n as nat));
    result
}

/// Two numbers that are written alike are equal.
pub proof fn decimal_is_injective(a: nat, b: nat)
    requires
        decimal(a) == decimal(b),
    ensures
        a == b,
    decreases a,
{
    decimal_is_not_empty(a / 10);
    decimal_is_not_empty(b / 10);
    assert(decimal(a).last() == digit(a % 10));
    assert(decimal(b).last() == digit(b % 10));
    if a < 10 || b < 10 {
        if a >= 10 {
            assert(decimal(a).len() >= 2);
        }
        if b >= 10 {
            assert(decimal(b).len() >= 2);
        }
    } else {
        assert(decimal(a).drop_last() =~= decimal(a / 10));
        assert(decimal(b).drop_last() =~= decimal(b / 10));
        decimal_is_injective(a / 10, b / 10);
    }
}

proof fn decimal_is_not_empty(n: nat)
    ensures
        decimal(n).len() >= 1,
    decreases n,
{
    if n >= 10 {
        decimal_is_not_empty(n / 10);
    }
}


// ------------------------------------------------------------------- ordering

/// `a` stands before `b` in the order of their characters.
pub open spec fn precedes(a: Seq<char>, b: Seq<char>) -> bool
    decreases a.len(),
{
    if b.len() == 0 {
        false
    } else if a.len() == 0 {
        true
    } else if a[0] != b[0] {
        a[0] < b[0]
    } else {
        precedes(a.skip(1), b.skip(1))
    }
}

/// Of two texts that differ exactly one stands before the other.
pub proof fn precedes_is_total(a: Seq<char>, b: Seq<char>)
    ensures
        a == b ==> !precedes(a, b),
        a != b ==> precedes(a, b) != precedes(b, a),
    decreases a.len(),
{
    if a.len() > 0 && b.len() > 0 && a[0] == b[0] {
        precedes_is_total(a.skip(1), b.skip(1));
        assert(a =~= seq![a[0]] + a.skip(1));
        assert(b =~= seq![b[0]] + b.skip(1));
    } else if a.len() == 0 && b.len() == 0 {
        assert(a =~= b);
    } else if a.len() > 0 && b.len() > 0 {
        assert(a != b);
    }
}

pub proof fn precedes_is_transitive(a: Seq<char>, b: Seq<char>, c: Seq<char>)
    requires
        precedes(a, b),
        precedes(b, c),
    ensures
        precedes(a, c),
    decreases a.len(),
{
    if a.len() > 0 && b.len() > 0 && c.len() > 0 && a[0] == b[0] && b[0] == c[0] {
        precedes_is_transitive(a.skip(1), b.skip(1), c.skip(1));
    }
}

/// Whether one text stands before another.
pub fn stands_before(a: &str, b: &str) -> (result: bool)
    ensures
        result == precedes(a@, b@),
{
    let left = chars_of(a);
    let right = chars_of(b);
    let mut i: usize = 0;
    assert(left@.skip(0) =~= left@);
    assert(right@.skip(0) =~= right@);
    while i < left.len() && i < right.len() && left[i] == right[i]
        invariant
            i <= left@.len(),
            i <= right@.len(),
            precedes(left@.skip(i as int), right@.skip(i as int)) == precedes(left@, right@),
        decreases left@.len() - i,
    {
        assert(left@.skip(i as int).skip(1) =~= left@.skip(i + 1));
        assert(right@.skip(i as int).skip(1) =~= right@.skip(i + 1));
        i += 1;
    }
    if i >= right.len() {
        false
    } else if i >= left.len() {
        true
    } else {
        left[i] < right[i]
    }
}

/// Each text stands before the next; none occurs twice.
pub open spec fn ordered(list: Seq<Seq<char>>) -> bool {
    forall|i: int, j: int| 0 <= i < j < list.len() ==> precedes(#[trigger] list[i], #[trigger] list[j])
}

/// Puts a text into an ordered list, unless it is there.
pub fn put_in_order(list: &mut Vec<String>, text: String)
    requires
        ordered(texts(old(list)@)),
    ensures
        ordered(texts(final(list)@)),
        forall|t: Seq<char>| #[trigger]
            texts(final(list)@).contains(t) <==> t == text@ || texts(old(list)@).contains(t),
{
    let ghost before = texts(list@);
    let ghost added = text@;
    let mut at: usize = 0;
    while at < list.len() && stands_before(list[at].as_str(), text.as_str())
        invariant
            at <= list@.len(),
            texts(list@) == before,
            added == text@,
            forall|j: int| 0 <= j < at ==> precedes(#[trigger] before[j], added),
        decreases list@.len() - at,
    {
        assert(before[at as int] == list@[at as int]@);
        at += 1;
    }
    if at < list.len() && list[at] == text {
        assert(before[at as int] == added);
        return ;
    }
    list.insert(at, text);
    proof {
        let after = texts(list@);
        assert(after =~= before.insert(at as int, added));
        if at < before.len() {
            precedes_is_total(before[at as int], added);
        }
        assert forall|i: int, j: int| 0 <= i < j < after.len() implies precedes(
            #[trigger] after[i],
            #[trigger] after[j],
        ) by {
            let a = if i < at {
                i
            } else {
                i - 1
            };
            let b = if j < at {
                j
            } else {
                j - 1
            };
            if i == at {
                assert(after[j] == before[b]);
                if b > at {
                    precedes_is_transitive(added, before[at as int], before[b]);
                }
            } else if j == at {
                assert(after[i] == before[i]);
            } else {
                assert(after[i] == before[a] && after[j] == before[b]);
            }
        }
        assert forall|t: Seq<char>| #[trigger] after.contains(t) <==> t == added || before.contains(
            t,
        ) by {
            if after.contains(t) {
                let i = after.index_of(t);
                if i < at {
                    assert(before[i] == t);
                } else if i > at {
                    assert(before[i - 1] == t);
                }
            }
            if before.contains(t) {
                let i = before.index_of(t);
                assert(after[if i < at {
                    i
                } else {
                    i + 1
                }] == t);
            }
            assert(after[at as int] == added);
        }
    }
}

// ------------------------------------------------------------ numbered names

/// The `n`th name for a stem: the stem itself, then the stem with a number.
pub open spec fn numbered(stem: Seq<char>, n: nat) -> Seq<char> {
    if n == 1 {
        stem
    } else {
        stem + " ("@ + decimal(n) + ")"@
    }
}

/// The `n`th name for a stem.
pub fn numbered_name(stem: &str, n: u64) -> (result: String)
    ensures
        result@ == numbered(stem@, n as nat),
{
    let mut result = stem.to_owned();
    if n != 1 {
        result.append(" (");
        result.append(number(n).as_str());
        result.append(")");
    }
    result
}

/// The names for one stem all differ.
pub proof fn numbered_is_injective(stem: Seq<char>, a: nat, b: nat)
    requires
        numbered(stem, a) == numbered(stem, b),
        a >= 1,
        b >= 1,
    ensures
        a == b,
{
    reveal_strlit(" (");
    reveal_strlit(")");
    let x = numbered(stem, a);
    let y = numbered(stem, b);
    if a == 1 || b == 1 {
        assert(x.len() == stem.len() || a != 1);
    } else {
        let k = stem.len() + 2;
        assert(x.subrange(k as int, x.len() - 1) =~= decimal(a));
        assert(y.subrange(k as int, y.len() - 1) =~= decimal(b));
        decimal_is_injective(a, b);
    }
}

/// The lower case that `str::to_lowercase` gives.
pub uninterp spec fn lowercased(s: Seq<char>) -> Seq<char>;

/// `str::to_lowercase`: the lower case of a text is a function of the text. A
/// number in brackets behind a space has no case: it is kept, and it does not
/// change the case of what stands before it.
#[verifier::external_body]
pub(crate) fn lowercase(text: &str) -> (result: String)
    ensures
        result@ == lowercased(text@),
        forall|stem: Seq<char>, n: nat|
            text@ == #[trigger] numbered(stem, n) ==> result@ == numbered(lowercased(stem), n),
{
    text.to_lowercase()
}

/// Texts with a separator between them.
pub open spec fn joined(parts: Seq<Seq<char>>, separator: Seq<char>) -> Seq<char>
    decreases parts.len(),
{
    if parts.len() == 0 {
        Seq::empty()
    } else if parts.len() == 1 {
        parts[0]
    } else {
        joined(parts.drop_last(), separator) + separator + parts.last()
    }
}

/// The texts of string slices.
pub open spec fn slices(parts: Seq<&str>) -> Seq<Seq<char>> {
    Seq::new(parts.len(), |i: int| parts[i]@)
}

/// Joins texts, with a separator between them.
pub fn join_all(parts: &Vec<&str>, separator: &str) -> (result: String)
    ensures
        result@ == joined(slices(parts@), separator@),
{
    let mut text = String::new();
    let ghost all = slices(parts@);
    let mut i: usize = 0;
    assert(all.take(0) =~= Seq::empty());
    while i < parts.len()
        invariant
            i <= parts@.len(),
            all == slices(parts@),
            text@ == joined(all.take(i as int), separator@),
        decreases parts@.len() - i,
    {
        let ghost before = text@;
        if i > 0 {
            text.append(separator);
        }
        text.append(parts[i]);
        assert(all.take(i + 1).drop_last() =~= all.take(i as int));
        assert(i == 0 ==> text@ =~= parts@[0]@);
        i += 1;
    }
    assert(all.take(parts@.len() as int) =~= all);
    text
}

/// Joins strings, with a separator between them.
pub fn join_texts(parts: &Vec<String>, separator: &str) -> (result: String)
    ensures
        result@ == joined(texts(parts@), separator@),
{
    let mut slice: Vec<&str> = Vec::new();
    let mut i: usize = 0;
    while i < parts.len()
        invariant
            i <= parts@.len(),
            slice@.len() == i,
            forall|j: int| 0 <= j < i ==> (#[trigger] slice@[j])@ == parts@[j]@,
        decreases parts@.len() - i,
    {
        slice.push(parts[i].as_str());
        i += 1;
    }
    assert(slices(slice@) =~= texts(parts@));
    join_all(&slice, separator)
}

// ----------------------------------------------------------------- white space

/// Trimming takes away white space at both ends and nothing else: what is left begins and
/// ends with something that can be seen.
pub proof fn trimming_takes_only_space(s: Seq<char>) -> (ends: (int, int))
    ensures
        0 <= ends.0 <= ends.1 <= s.len(),
        trimmed(s) == s.subrange(ends.0, ends.1),
        forall|i: int| 0 <= i < ends.0 ==> is_space(#[trigger] s[i]),
        forall|i: int| ends.1 <= i < s.len() ==> is_space(#[trigger] s[i]),
        ends.0 < ends.1 ==> !is_space(s[ends.0]) && !is_space(s[ends.1 - 1]),
{
    let from = start_of(s);
    let front = trimmed_start(s);
    let to = end_of(front);
    assert(s.skip(from).take(to) =~= s.subrange(from, from + to));
    assert forall|i: int| from + to <= i < s.len() implies is_space(#[trigger] s[i]) by {
        assert(front[i - from] == s[i]);
    }
    if to > 0 {
        assert(front[to - 1] == s[from + to - 1]);
        assert(front[0] == s[from]);
    }
    (from, from + to)
}

proof fn start_of(s: Seq<char>) -> (from: int)
    ensures
        0 <= from <= s.len(),
        trimmed_start(s) == s.skip(from),
        forall|i: int| 0 <= i < from ==> is_space(#[trigger] s[i]),
        from < s.len() ==> !is_space(s[from]),
    decreases s.len(),
{
    if s.len() > 0 && is_space(s[0]) {
        let rest = s.skip(1);
        let from = start_of(rest);
        assert(rest.skip(from) =~= s.skip(from + 1));
        assert forall|i: int| 0 <= i < from + 1 implies is_space(#[trigger] s[i]) by {
            if i > 0 {
                assert(rest[i - 1] == s[i]);
            }
        }
        from + 1
    } else {
        assert(s.skip(0) =~= s);
        0
    }
}

proof fn end_of(s: Seq<char>) -> (to: int)
    ensures
        0 <= to <= s.len(),
        trimmed_end(s) == s.take(to),
        forall|i: int| to <= i < s.len() ==> is_space(#[trigger] s[i]),
        to > 0 ==> !is_space(s[to - 1]),
    decreases s.len(),
{
    if s.len() > 0 && is_space(s.last()) {
        let front = s.drop_last();
        let to = end_of(front);
        assert(front.take(to) =~= s.take(to));
        assert forall|i: int| to <= i < s.len() implies is_space(#[trigger] s[i]) by {
            if i < front.len() {
                assert(front[i] == s[i]);
            }
        }
        to
    } else {
        assert(s.take(s.len() as int) =~= s);
        s.len() as int
    }
}

/// What neither begins nor ends with white space is not trimmed.
pub proof fn trimmed_text_stays(s: Seq<char>)
    requires
        s.len() > 0 ==> !is_space(s[0]) && !is_space(s.last()),
    ensures
        trimmed(s) == s,
{
    let ends = trimming_takes_only_space(s);
    if s.len() > 0 {
        if ends.0 > 0 {
            assert(is_space(s[0]));
        }
        if ends.1 < s.len() {
            assert(is_space(s[s.len() - 1]));
        }
    }
    assert(s.subrange(0, s.len() as int) =~= s);
}

/// The first line ends before the first line break and is the beginning of the text.
pub proof fn the_first_line_has_no_break(text: &str, line: String)
    requires
        call_ensures(opening_line, (text,), line),
    ensures
        line@ == text@.take(line@.len() as int),
        forall|i: int| 0 <= i < line@.len() ==> #[trigger] line@[i] != '\n',
        line@.len() < text@.len() ==> text@[line@.len() as int] == '\n' || (line@.len() + 1
            < text@.len() && text@[line@.len() as int] == '\r' && text@[line@.len() as int + 1] == '\n'),
{
    first_index_within(text@, '\n');
    assert(line@ =~= text@.take(line@.len() as int));
}

/// Text before a part is the beginning of the text up to where the part first stands, and
/// the whole text where it does not.
pub proof fn text_before_ends_at_the_part(text: &str, part: &str, result: String)
    requires
        call_ensures(text_before, (text, part), result),
    ensures
        result@.len() <= text@.len(),
        result@ == text@.take(result@.len() as int),
        result@.len() < text@.len() ==> occurs_at(text@, part@, result@.len() as int),
        forall|i: int| 0 <= i < result@.len() ==> !#[trigger] occurs_at(text@, part@, i),
{
    before_is(text@, part@);
}

proof fn before_is(s: Seq<char>, part: Seq<char>)
    ensures
        before(s, part).len() <= s.len(),
        before(s, part) == s.take(before(s, part).len() as int),
        before(s, part).len() < s.len() ==> occurs_at(s, part, before(s, part).len() as int),
        forall|i: int| 0 <= i < before(s, part).len() ==> !#[trigger] occurs_at(s, part, i),
    decreases s.len(),
{
    let found = before(s, part);
    if s.len() == 0 || begins(s, part) {
        assert(found =~= s.take(0));
    } else {
        let rest = s.skip(1);
        before_is(rest, part);
        assert(found =~= s.take(found.len() as int));
        let n = before(rest, part).len() as int;
        begins_rest(s, part, 1 + n);
        begins_rest(rest, part, n);
        assert(rest.skip(n) =~= s.skip(1 + n));
        assert forall|i: int| 0 <= i < found.len() implies !#[trigger] occurs_at(s, part, i) by {
            if i > 0 {
                begins_rest(s, part, i);
                begins_rest(rest, part, i - 1);
                assert(rest.skip(i - 1) =~= s.skip(i));
                assert(!occurs_at(rest, part, i - 1));
            }
        }
    }
}

/// Joined texts hold each part, one after the other: a text more adds the separator and
/// that text at the end, and one text alone is itself.
pub proof fn joining_adds_at_the_end(parts: Seq<Seq<char>>, separator: Seq<char>, more: Seq<char>)
    ensures
        joined(seq![more], separator) == more,
        parts.len() > 0 ==> joined(parts.push(more), separator) == joined(parts, separator)
            + separator + more,
        joined(Seq::empty(), separator).len() == 0,
{
    if parts.len() > 0 {
        assert(parts.push(more).drop_last() =~= parts);
    }
}

/// The value of a digit, by its place after the zero.
pub open spec fn digit_value(c: char) -> nat {
    ((c as u32) - ('0' as u32)) as nat
}

/// The number that digits say, the first counting most.
pub open spec fn said_number(digits: Seq<char>) -> nat
    decreases digits.len(),
{
    if digits.len() == 0 {
        0
    } else {
        10 * said_number(digits.drop_last()) + digit_value(digits.last())
    }
}

/// A number in decimal digits says that number, in as few digits as it takes.
pub proof fn a_number_says_itself(n: nat)
    ensures
        said_number(decimal(n)) == n,
        decimal(n).len() > 0,
        n > 0 ==> decimal(n)[0] != '0',
        forall|i: int| 0 <= i < decimal(n).len() ==> '0' <= #[trigger] decimal(n)[i] <= '9',
    decreases n,
{
    let digits = decimal(n);
    if n < 10 {
        assert(digits.drop_last() =~= Seq::empty());
        assert(said_number(digits.drop_last()) == 0);
    } else {
        a_number_says_itself(n / 10);
        assert(digits.drop_last() =~= decimal(n / 10));
        assert(digits[0] == decimal(n / 10)[0]);
    }
}

/// Texts are ordered as in a dictionary: a beginning comes before what goes on from it, and the
/// first character that differs decides.
pub proof fn texts_are_ordered_as_in_a_dictionary(
    common: Seq<char>,
    a: Seq<char>,
    b: Seq<char>,
)
    requires
        b.len() > 0,
        a.len() == 0 || a[0] < b[0],
    ensures
        precedes(common + a, common + b),
    decreases common.len(),
{
    if common.len() == 0 {
        assert(common + a =~= a);
        assert(common + b =~= b);
    } else {
        texts_are_ordered_as_in_a_dictionary(common.skip(1), a, b);
        assert((common + a).skip(1) =~= common.skip(1) + a);
        assert((common + b).skip(1) =~= common.skip(1) + b);
    }
}

/// Where a part first stands, it is replaced, and what comes before it is left; the rest is
/// gone through likewise.
pub proof fn the_first_occurrence_is_replaced(
    front: Seq<char>,
    part: Seq<char>,
    rest: Seq<char>,
    with: Seq<char>,
)
    requires
        part.len() > 0,
        forall|i: int| 0 <= i < front.len() ==> !#[trigger] occurs_at(front + part + rest, part, i),
    ensures
        replaced(front + part + rest, part, with) == front + with + replaced(rest, part, with),
    decreases front.len(),
{
    let s = front + part + rest;
    if front.len() == 0 {
        assert(s =~= part + rest);
        assert(s.subrange(0, part.len() as int) =~= part);
        assert(s.skip(part.len() as int) =~= rest);
        assert(front + with + replaced(rest, part, with) =~= with + replaced(rest, part, with));
    } else {
        let tail = front.skip(1);
        assert(s.skip(1) =~= tail + part + rest);
        assert forall|i: int| 0 <= i < tail.len() implies !#[trigger] occurs_at(
            tail + part + rest,
            part,
            i,
        ) by {
            assert(!occurs_at(s, part, i + 1));
            begins_rest(s, part, i + 1);
            begins_rest(tail + part + rest, part, i);
            assert(s.skip(i + 1) =~= (tail + part + rest).skip(i));
        }
        the_first_occurrence_is_replaced(tail, part, rest, with);
        assert(!occurs_at(s, part, 0));
        assert(front + with + replaced(rest, part, with) =~= seq![front[0]] + (tail + with
            + replaced(rest, part, with)));
    }
}

/// A name is numbered from two on, in brackets behind it.
pub proof fn a_name_is_numbered_behind_it(stem: &str, n: u64, name: String)
    requires
        call_ensures(numbered_name, (stem, n), name),
    ensures
        n == 1 ==> name@ == stem@,
        n != 1 ==> name@ == stem@ + " ("@ + decimal(n as nat) + ")"@,
{
}

} // verus!

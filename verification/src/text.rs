//! Text as sequences of characters: trimming, case folding, ordering and
//! decimal numerals.

use vstd::prelude::*;
use vstd::string::*;

verus! {

/// The characters with the Unicode property `White_Space`.
pub open spec fn is_white_space(c: char) -> bool {
    ||| '\u{9}' <= c <= '\u{d}'
    ||| c == '\u{20}'
    ||| c == '\u{85}'
    ||| c == '\u{a0}'
    ||| c == '\u{1680}'
    ||| '\u{2000}' <= c <= '\u{200a}'
    ||| c == '\u{2028}'
    ||| c == '\u{2029}'
    ||| c == '\u{202f}'
    ||| c == '\u{205f}'
    ||| c == '\u{3000}'
}

/// `s` without its leading white space.
pub open spec fn trim_start_of(s: Seq<char>) -> Seq<char>
    decreases s.len(),
{
    if s.len() > 0 && is_white_space(s.first()) {
        trim_start_of(s.drop_first())
    } else {
        s
    }
}

/// `s` without its trailing white space.
pub open spec fn trim_end_of(s: Seq<char>) -> Seq<char>
    decreases s.len(),
{
    if s.len() > 0 && is_white_space(s.last()) {
        trim_end_of(s.drop_last())
    } else {
        s
    }
}

/// `s` without leading and trailing white space.
pub open spec fn trimmed(s: Seq<char>) -> Seq<char> {
    trim_end_of(trim_start_of(s))
}

fn is_blank(c: char) -> (r: bool)
    ensures
        r == is_white_space(c),
{
    ('\u{9}' <= c && c <= '\u{d}') || c == '\u{20}' || c == '\u{85}' || c == '\u{a0}' || c
        == '\u{1680}' || ('\u{2000}' <= c && c <= '\u{200a}') || c == '\u{2028}' || c == '\u{2029}'
        || c == '\u{202f}' || c == '\u{205f}' || c == '\u{3000}'
}

/// The text without leading and trailing white space.
pub fn trim(s: &str) -> (r: &str)
    ensures
        r@ == trimmed(s@),
{
    let chars = chars_of(s);
    let mut start: usize = 0;
    assert(s@.skip(0) =~= s@);
    while start < chars.len() && is_blank(chars[start])
        invariant
            chars@ == s@,
            start <= chars@.len(),
            trim_start_of(s@.skip(start as int)) == trim_start_of(s@),
        decreases chars@.len() - start,
    {
        assert(s@.skip(start as int).drop_first() =~= s@.skip(start + 1));
        start = start + 1;
    }
    let rest = s.substring_char(start, chars.len());
    assert(rest@ =~= s@.skip(start as int));
    trim_end(rest)
}

/// The text without trailing white space.
pub fn trim_end(s: &str) -> (r: &str)
    ensures
        r@ == trim_end_of(s@),
{
    let chars = chars_of(s);
    let mut end: usize = chars.len();
    assert(s@.take(end as int) =~= s@);
    while end > 0 && is_blank(chars[end - 1])
        invariant
            chars@ == s@,
            end <= chars@.len(),
            trim_end_of(s@.take(end as int)) == trim_end_of(s@),
        decreases end,
    {
        assert(s@.take(end as int).drop_last() =~= s@.take(end - 1));
        end = end - 1;
    }
    assert(s@.subrange(0, end as int) =~= s@.take(end as int));
    s.substring_char(0, end)
}

/// What `str::to_lowercase` makes of a text.
pub uninterp spec fn lowercase(s: Seq<char>) -> Seq<char>;

/// `str::to_lowercase`: the lower case form of the text, a function of its
/// characters alone. That of the empty text is empty.
#[verifier::external_body]
fn to_lowercase(s: &str) -> (r: String)
    ensures
        s@.len() > 0 ==> r@ == lowercase(s@),
        s@.len() == 0 ==> r@.len() == 0,
{
    s.to_lowercase()
}

/// The lower case form of a text.
pub open spec fn lowered(s: Seq<char>) -> Seq<char> {
    if s.len() == 0 {
        Seq::empty()
    } else {
        lowercase(s)
    }
}

/// The lower case form of a text.
pub fn lower_case(s: &str) -> (r: String)
    ensures
        r@ == lowered(s@),
{
    let r = to_lowercase(s);
    assert(s@.len() == 0 ==> r@ =~= Seq::empty());
    r
}

/// `String::push`: the character is appended to the text.
#[verifier::external_body]
pub(crate) fn push_char(s: &mut String, c: char)
    ensures
        final(s)@ == old(s)@.push(c),
{
    s.push(c)
}

/// The characters of `s`, in order.
pub fn chars_of(s: &str) -> (v: Vec<char>)
    ensures
        v@ == s@,
{
    let mut v: Vec<char> = Vec::new();
    for c in it: s.chars()
        invariant
            v@ == it.seq().take(it.index() as int),
            it.seq() == s@,
    {
        v.push(c);
    }
    v
}

/// The text made of `chars`, in order.
pub fn text_of(chars: &Vec<char>) -> (s: String)
    ensures
        s@ == chars@,
{
    let mut s = String::new();
    let mut i: usize = 0;
    while i < chars.len()
        invariant
            i <= chars@.len(),
            s@ == chars@.take(i as int),
        decreases chars@.len() - i,
    {
        push_char(&mut s, chars[i]);
        i = i + 1;
    }
    s
}

/// Whether two texts have the same characters.
pub fn same_text(a: &str, b: &str) -> (r: bool)
    ensures
        r == (a@ == b@),
{
    let x = chars_of(a);
    let y = chars_of(b);
    if x.len() != y.len() {
        return false;
    }
    let mut i: usize = 0;
    while i < x.len()
        invariant
            x@ == a@,
            y@ == b@,
            x@.len() == y@.len(),
            i <= x@.len(),
            forall|j: int| 0 <= j < i ==> x@[j] == y@[j],
        decreases x@.len() - i,
    {
        if x[i] != y[i] {
            return false;
        }
        i = i + 1;
    }
    assert(x@ =~= y@);
    true
}

/// The two texts joined.
pub fn joined(a: &str, b: &str) -> (r: String)
    ensures
        r@ == a@ + b@,
{
    let mut r = a.to_owned();
    r.append(b);
    r
}

/// `c` with an ASCII upper case letter replaced by its lower case letter.
pub open spec fn ascii_folded(c: char) -> char {
    if 'A' <= c <= 'Z' {
        (c as u8 + 32) as char
    } else {
        c
    }
}

/// Whether two texts differ at most in the case of ASCII letters.
pub open spec fn same_ignoring_ascii_case(a: Seq<char>, b: Seq<char>) -> bool {
    &&& a.len() == b.len()
    &&& forall|i: int| 0 <= i < a.len() ==> ascii_folded(#[trigger] a[i]) == ascii_folded(b[i])
}

fn fold_ascii(c: char) -> (r: char)
    ensures
        r == ascii_folded(c),
{
    if 'A' <= c && c <= 'Z' {
        ((c as u8) + 32) as char
    } else {
        c
    }
}

/// Compares two texts without regard to the case of ASCII letters.
pub fn eq_ignore_ascii_case(a: &str, b: &str) -> (r: bool)
    ensures
        r == same_ignoring_ascii_case(a@, b@),
{
    let x = chars_of(a);
    let y = chars_of(b);
    if x.len() != y.len() {
        return false;
    }
    let mut i: usize = 0;
    while i < x.len()
        invariant
            x@ == a@,
            y@ == b@,
            x@.len() == y@.len(),
            i <= x@.len(),
            forall|j: int| 0 <= j < i ==> ascii_folded(#[trigger] x@[j]) == ascii_folded(y@[j]),
        decreases x@.len() - i,
    {
        if fold_ascii(x[i]) != fold_ascii(y[i]) {
            return false;
        }
        i = i + 1;
    }
    true
}

/// The decimal digits of `n`, without leading zeros.
pub open spec fn decimal(n: nat) -> Seq<char>
    decreases n,
{
    if n < 10 {
        seq![digit(n)]
    } else {
        decimal(n / 10).push(digit(n % 10))
    }
}

/// The character of a digit below ten.
pub open spec fn digit(d: nat) -> char {
    ('0' as u32 + d) as char
}

/// The decimal numeral of `n`.
pub fn decimal_of(n: u64) -> (r: String)
    ensures
        r@ == decimal(n as nat),
    decreases n,
{
    let last: char = (48u8 + (n % 10) as u8) as char;
    if n < 10 {
        let mut r = String::new();
        push_char(&mut r, last);
        r
    } else {
        let mut r = decimal_of(n / 10);
        push_char(&mut r, last);
        r
    }
}

/// Whether `a` comes before `b` in the lexicographic order of code points.
pub open spec fn text_lt(a: Seq<char>, b: Seq<char>) -> bool
    decreases b.len(),
{
    if b.len() == 0 {
        false
    } else if a.len() == 0 {
        true
    } else if a[0] == b[0] {
        text_lt(a.drop_first(), b.drop_first())
    } else {
        a[0] < b[0]
    }
}

/// Whether `a` comes before `b` in the lexicographic order of code points.
pub fn text_before(a: &str, b: &str) -> (r: bool)
    ensures
        r == text_lt(a@, b@),
{
    let x = chars_of(a);
    let y = chars_of(b);
    let mut i: usize = 0;
    assert(a@.skip(0) =~= a@);
    assert(b@.skip(0) =~= b@);
    while i < x.len() && i < y.len() && x[i] == y[i]
        invariant
            x@ == a@,
            y@ == b@,
            i <= x@.len(),
            i <= y@.len(),
            text_lt(a@, b@) == text_lt(a@.skip(i as int), b@.skip(i as int)),
        decreases x@.len() - i,
    {
        assert(a@.skip(i as int).drop_first() =~= a@.skip(i + 1));
        assert(b@.skip(i as int).drop_first() =~= b@.skip(i + 1));
        i = i + 1;
    }
    if i >= y.len() {
        false
    } else if i >= x.len() {
        true
    } else {
        x[i] < y[i]
    }
}

/// The order of texts is irreflexive.
pub proof fn text_lt_irreflexive(a: Seq<char>)
    ensures
        !text_lt(a, a),
    decreases a.len(),
{
    if a.len() > 0 {
        text_lt_irreflexive(a.drop_first());
    }
}

/// The order of texts is transitive.
pub proof fn text_lt_transitive(a: Seq<char>, b: Seq<char>, c: Seq<char>)
    requires
        text_lt(a, b),
        text_lt(b, c),
    ensures
        text_lt(a, c),
    decreases a.len(),
{
    if a.len() > 0 && a[0] == b[0] && b[0] == c[0] {
        text_lt_transitive(a.drop_first(), b.drop_first(), c.drop_first());
    }
}

/// Of two different texts one comes before the other.
pub proof fn text_lt_total(a: Seq<char>, b: Seq<char>)
    ensures
        a == b || text_lt(a, b) || text_lt(b, a),
    decreases a.len(),
{
    if a.len() > 0 && b.len() > 0 && a[0] == b[0] {
        text_lt_total(a.drop_first(), b.drop_first());
        if a.drop_first() == b.drop_first() {
            assert(a =~= seq![a[0]] + a.drop_first());
            assert(b =~= seq![b[0]] + b.drop_first());
        }
    } else if a.len() == 0 && b.len() == 0 {
        assert(a =~= b);
    }
}

proof fn trim_start_facts(s: Seq<char>)
    ensures
        trim_start_of(s).len() <= s.len(),
        trim_start_of(s).len() > 0 ==> !is_white_space(trim_start_of(s).first())
            && trim_start_of(s).last() == s.last(),
    decreases s.len(),
{
    if s.len() > 0 && is_white_space(s.first()) {
        trim_start_facts(s.drop_first());
    }
}

proof fn trim_end_facts(s: Seq<char>)
    ensures
        trim_end_of(s).len() <= s.len(),
        trim_end_of(s).len() > 0 ==> !is_white_space(trim_end_of(s).last())
            && trim_end_of(s).first() == s.first(),
    decreases s.len(),
{
    if s.len() > 0 && is_white_space(s.last()) {
        trim_end_facts(s.drop_last());
    }
}

/// A trimmed text neither begins nor ends with white space.
pub proof fn trimmed_ends(s: Seq<char>)
    ensures
        trimmed(s).len() > 0 ==> !is_white_space(trimmed(s).first()) && !is_white_space(
            trimmed(s).last(),
        ),
{
    trim_start_facts(s);
    trim_end_facts(trim_start_of(s));
}

/// Trimming a trimmed text changes nothing.
pub proof fn trim_idempotent(s: Seq<char>)
    ensures
        trimmed(trimmed(s)) == trimmed(s),
{
    trimmed_ends(s);
}

/// A text is blank if and only if trimming leaves nothing of it.
pub proof fn blank_is_trimmed_away(s: Seq<char>)
    ensures
        trimmed(s).len() > 0 <==> exists|i: int| 0 <= i < s.len() && !is_white_space(#[trigger] s[i]),
{
    trimming_takes_blank_ends(s);
    let (i, j) = choose|i: int, j: int| #[trigger] is_core(s, i, j) && trimmed(s) == s.subrange(i, j);
    if trimmed(s).len() > 0 {
        assert(trimmed(s).first() == s[i]);
        trimmed_ends(s);
        assert(!is_white_space(s[i]));
    }
}

/// Whether what stands before `i` and from `j` on in a text is white space.
pub open spec fn is_core(s: Seq<char>, i: int, j: int) -> bool {
    &&& 0 <= i <= j <= s.len()
    &&& forall|k: int| 0 <= k < s.len() && !(i <= k < j) ==> is_white_space(#[trigger] s[k])
}

proof fn trim_start_is_suffix(s: Seq<char>)
    ensures
        ({
            let i = s.len() - trim_start_of(s).len();
            0 <= i <= s.len() && trim_start_of(s) == s.skip(i) && forall|k: int|
                0 <= k < i ==> is_white_space(#[trigger] s[k])
        }),
    decreases s.len(),
{
    if s.len() > 0 && is_white_space(s.first()) {
        let rest = s.drop_first();
        trim_start_is_suffix(rest);
        let i = s.len() - trim_start_of(s).len();
        assert(rest.skip(i - 1) =~= s.skip(i));
        assert forall|k: int| 0 <= k < i implies is_white_space(#[trigger] s[k]) by {
            if k > 0 {
                assert(rest[k - 1] == s[k]);
            }
        }
    } else {
        assert(s.skip(0) =~= s);
    }
}

/// What is left without trailing white space begins the text, and only white space follows
/// it.
pub proof fn trim_end_is_prefix(s: Seq<char>)
    ensures
        ({
            let j = trim_end_of(s).len() as int;
            j <= s.len() && trim_end_of(s) == s.take(j) && forall|k: int|
                j <= k < s.len() ==> is_white_space(#[trigger] s[k])
        }),
    decreases s.len(),
{
    if s.len() > 0 && is_white_space(s.last()) {
        let rest = s.drop_last();
        trim_end_is_prefix(rest);
        let j = trim_end_of(s).len() as int;
        assert(rest.take(j) =~= s.take(j));
        assert forall|k: int| j <= k < s.len() implies is_white_space(#[trigger] s[k]) by {
            if k < rest.len() {
                assert(rest[k] == s[k]);
            }
        }
    } else {
        assert(s.take(s.len() as int) =~= s);
    }
}

/// Trimming takes white space from both ends of a text and nothing else: what is left is a
/// part of the text, in one piece, and all around it is white space.
pub proof fn trimming_takes_blank_ends(s: Seq<char>)
    ensures
        exists|i: int, j: int| #[trigger] is_core(s, i, j) && trimmed(s) == s.subrange(i, j),
{
    trim_start_is_suffix(s);
    let rest = trim_start_of(s);
    let i = s.len() - rest.len();
    trim_end_is_prefix(rest);
    let j = i + trim_end_of(rest).len();
    assert(rest.take(j - i) =~= s.subrange(i, j));
    assert forall|k: int| 0 <= k < s.len() && !(i <= k < j) implies is_white_space(
        #[trigger] s[k],
    ) by {
        if k >= j {
            assert(rest[k - i] == s[k]);
        }
    }
    assert(is_core(s, i, j));
}

/// What `trim` gives neither begins nor ends with white space, and is the text without
/// white space around it.
pub proof fn trim_takes_the_blank_ends(s: &str, r: &str)
    requires
        call_ensures(trim, (s,), r),
    ensures
        exists|i: int, j: int| #[trigger] is_core(s@, i, j) && r@ == s@.subrange(i, j),
        r@.len() > 0 ==> !is_white_space(r@.first()) && !is_white_space(r@.last()),
{
    trimming_takes_blank_ends(s@);
    trimmed_ends(s@);
}

/// What `trim_end` gives does not end with white space, and only white space stands behind
/// it in the text, which begins with it.
pub proof fn trim_end_takes_the_blank_end(s: &str, r: &str)
    requires
        call_ensures(trim_end, (s,), r),
    ensures
        r@.is_prefix_of(s@),
        forall|k: int| r@.len() <= k < s@.len() ==> is_white_space(#[trigger] s@[k]),
        r@.len() > 0 ==> !is_white_space(r@.last()),
{
    trim_end_is_prefix(s@);
    trim_end_facts(s@);
}

/// The characters that count as white space: tabs, breaks and spaces of every width.
pub proof fn white_space_characters(c: char)
    ensures
        is_white_space(c) <==> {
            ||| 0x9 <= c as u32 <= 0xd
            ||| c as u32 == 0x20
            ||| c as u32 == 0x85
            ||| c as u32 == 0xa0
            ||| c as u32 == 0x1680
            ||| 0x2000 <= c as u32 <= 0x200a
            ||| 0x2028 <= c as u32 <= 0x2029
            ||| c as u32 == 0x202f
            ||| c as u32 == 0x205f
            ||| c as u32 == 0x3000
        },
{
}

/// The number that a numeral stands for.
pub open spec fn number_of(digits: Seq<char>) -> int
    decreases digits.len(),
{
    if digits.len() == 0 {
        0
    } else {
        number_of(digits.drop_last()) * 10 + (digits.last() as int - '0' as int)
    }
}

proof fn decimal_reads_back(n: nat)
    ensures
        number_of(decimal(n)) == n,
        decimal(n).len() > 0,
        forall|i: int| 0 <= i < decimal(n).len() ==> '0' <= #[trigger] decimal(n)[i] <= '9',
        n > 0 ==> decimal(n)[0] != '0',
    decreases n,
{
    if n < 10 {
        assert(decimal(n).drop_last() =~= Seq::empty());
        assert(number_of(decimal(n).drop_last()) == 0);
    } else {
        decimal_reads_back(n / 10);
        assert(decimal(n).drop_last() =~= decimal(n / 10));
    }
}

/// The numeral of a number is made of digits, without needless zeros before it, and stands
/// for the number.
pub proof fn numerals_read_back(n: u64, r: String)
    requires
        call_ensures(decimal_of, (n,), r),
    ensures
        number_of(r@) == n,
        r@.len() > 0,
        forall|i: int| 0 <= i < r@.len() ==> '0' <= #[trigger] r@[i] <= '9',
        n > 0 ==> r@[0] != '0',
        n == 0 ==> r@.len() == 1,
{
    decimal_reads_back(n as nat);
}

/// Two texts are the same up to the case of ASCII letters if and only if they are of the
/// same length and at each place have the same character, or one has an ASCII upper case
/// letter and the other its lower case letter.
pub proof fn ascii_case_alone_is_ignored(a: &str, b: &str, r: bool)
    requires
        call_ensures(eq_ignore_ascii_case, (a, b), r),
    ensures
        r <==> a@.len() == b@.len() && forall|i: int|
            0 <= i < a@.len() ==> {
                let x = #[trigger] a@[i] as int;
                let y = b@[i] as int;
                x == y || 65 <= x <= 90 && y == x + 32 || 65 <= y <= 90 && x == y + 32
            },
{
    assert forall|x: char, y: char| #![trigger ascii_folded(x), ascii_folded(y)]
        ascii_folded(x) == ascii_folded(y) <==> (x as int == y as int || 65 <= x as int <= 90
            && y as int == x as int + 32 || 65 <= y as int <= 90 && x as int == y as int + 32) by {}
    if r {
        assert forall|i: int| 0 <= i < a@.len() implies {
            let x = #[trigger] a@[i] as int;
            let y = b@[i] as int;
            x == y || 65 <= x <= 90 && y == x + 32 || 65 <= y <= 90 && x == y + 32
        } by {
            assert(ascii_folded(a@[i]) == ascii_folded(b@[i]));
        }
    } else if a@.len() == b@.len() {
        let i = choose|i: int|
            0 <= i < a@.len() && ascii_folded(#[trigger] a@[i]) != ascii_folded(b@[i]);
        assert(a@[i] as int != b@[i] as int);
    }
}

/// A text comes before another if and only if they are the same up to a place at which it
/// has the lower character, or ends while the other goes on.
pub proof fn texts_are_ordered_by_first_difference(a: &str, b: &str, r: bool)
    requires
        call_ensures(text_before, (a, b), r),
    ensures
        r <==> exists|k: int|
            {
                &&& 0 <= k <= a@.len() && k < b@.len()
                &&& #[trigger] a@.take(k) == b@.take(k)
                &&& k == a@.len() || (a@[k] as int) < b@[k] as int
            },
{
    first_difference(a@, b@);
}

/// The order of texts is decided at the first difference.
pub proof fn first_difference(a: Seq<char>, b: Seq<char>)
    ensures
        text_lt(a, b) <==> exists|k: int|
            {
                &&& 0 <= k <= a.len() && k < b.len()
                &&& #[trigger] a.take(k) == b.take(k)
                &&& k == a.len() || (a[k] as int) < b[k] as int
            },
    decreases b.len(),
{
    if b.len() > 0 {
        if a.len() == 0 {
            assert(a.take(0) =~= b.take(0));
        } else if a[0] == b[0] {
            let x = a.drop_first();
            let y = b.drop_first();
            first_difference(x, y);
            if text_lt(a, b) {
                let k = choose|k: int|
                    {
                        &&& 0 <= k <= x.len() && k < y.len()
                        &&& #[trigger] x.take(k) == y.take(k)
                        &&& k == x.len() || (x[k] as int) < y[k] as int
                    };
                assert forall|i: int| 0 <= i < k + 1 implies a[i] == b[i] by {
                    if i > 0 {
                        assert(x.take(k)[i - 1] == y.take(k)[i - 1]);
                    }
                }
                assert(a.take(k + 1) =~= b.take(k + 1));
            }
            if exists|k: int|
                {
                    &&& 0 <= k <= a.len() && k < b.len()
                    &&& #[trigger] a.take(k) == b.take(k)
                    &&& k == a.len() || (a[k] as int) < b[k] as int
                } {
                let k = choose|k: int|
                    {
                        &&& 0 <= k <= a.len() && k < b.len()
                        &&& #[trigger] a.take(k) == b.take(k)
                        &&& k == a.len() || (a[k] as int) < b[k] as int
                    };
                assert(k > 0);
                assert forall|i: int| 0 <= i < k - 1 implies x[i] == y[i] by {
                    assert(a.take(k)[i + 1] == b.take(k)[i + 1]);
                }
                assert(x.take(k - 1) =~= y.take(k - 1));
            }
        } else {
            assert(a.take(0) =~= b.take(0));
            if exists|k: int|
                {
                    &&& 0 <= k <= a.len() && k < b.len()
                    &&& #[trigger] a.take(k) == b.take(k)
                    &&& k == a.len() || (a[k] as int) < b[k] as int
                } {
                let k = choose|k: int|
                    {
                        &&& 0 <= k <= a.len() && k < b.len()
                        &&& #[trigger] a.take(k) == b.take(k)
                        &&& k == a.len() || (a[k] as int) < b[k] as int
                    };
                if k > 0 {
                    assert(a.take(k)[0] == b.take(k)[0]);
                }
            }
        }
    }
}

/// The lower case form of a text is the one that the standard library gives; the empty
/// text stays empty.
pub proof fn lower_case_of_any_text(s: &str, r: String)
    requires
        call_ensures(lower_case, (s,), r),
    ensures
        s@.len() > 0 ==> r@ == lowercase(s@),
        s@.len() == 0 ==> r@.len() == 0,
{
}

} // verus!

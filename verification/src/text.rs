//! Searching, comparing and building the short texts that devices and logs exchange.

use vstd::prelude::*;

verus! {

/// Whether a character has the Unicode `White_Space` property.
pub open spec fn white_space(c: char) -> bool {
    ||| 0x9 <= c as int <= 0xD
    ||| c as int == 0x20
    ||| c as int == 0x85
    ||| c as int == 0xA0
    ||| c as int == 0x1680
    ||| 0x2000 <= c as int <= 0x200A
    ||| c as int == 0x2028
    ||| c as int == 0x2029
    ||| c as int == 0x202F
    ||| c as int == 0x205F
    ||| c as int == 0x3000
}

/// `s` without the white space in front.
pub open spec fn trim_start(s: Seq<char>) -> Seq<char>
    decreases s.len(),
{
    if s.len() > 0 && white_space(s[0]) {
        trim_start(s.subrange(1, s.len() as int))
    } else {
        s
    }
}

/// `s` without the white space behind.
pub open spec fn trim_end(s: Seq<char>) -> Seq<char>
    decreases s.len(),
{
    if s.len() > 0 && white_space(s.last()) {
        trim_end(s.drop_last())
    } else {
        s
    }
}

/// `s` without the white space around it.
pub open spec fn trim(s: Seq<char>) -> Seq<char> {
    trim_end(trim_start(s))
}

/// An ASCII lower-case letter raised to upper case; any other character as it is.
pub open spec fn ascii_upper(c: char) -> char {
    if 'a' <= c <= 'z' {
        (c as int - 32) as char
    } else {
        c
    }
}

/// Every ASCII letter of `s` raised to upper case.
pub open spec fn upper(s: Seq<char>) -> Seq<char> {
    s.map_values(|c: char| ascii_upper(c))
}

/// The characters of an optional text.
pub open spec fn chars(s: Option<&str>) -> Option<Seq<char>> {
    match s {
        Some(s) => Some(s@),
        None => None,
    }
}

/// Whether `needle` occurs in `s` at `at`.
pub open spec fn occurs_at(s: Seq<char>, needle: Seq<char>, at: int) -> bool {
    0 <= at && at + needle.len() <= s.len() && s.subrange(at, at + needle.len()) == needle
}

/// Whether `needle` occurs in `s`.
pub open spec fn occurs(s: Seq<char>, needle: Seq<char>) -> bool {
    exists|at: int| occurs_at(s, needle, at)
}

/// The order of texts: by the first character that differs, a prefix before what it begins.
pub open spec fn before(a: Seq<char>, b: Seq<char>) -> bool
    decreases a.len(),
{
    if b.len() == 0 {
        false
    } else if a.len() == 0 {
        true
    } else if a[0] != b[0] {
        a[0] < b[0]
    } else {
        before(a.subrange(1, a.len() as int), b.subrange(1, b.len() as int))
    }
}

/// Of two texts at most one comes before the other.
pub proof fn lemma_before_one_way(a: Seq<char>, b: Seq<char>)
    requires
        before(a, b),
    ensures
        !before(b, a),
    decreases a.len(),
{
    if a.len() > 0 && b.len() > 0 && a[0] == b[0] {
        lemma_before_one_way(a.subrange(1, a.len() as int), b.subrange(1, b.len() as int));
    }
}

/// Not coming before goes on from text to text.
pub proof fn lemma_not_before_chain(a: Seq<char>, b: Seq<char>, c: Seq<char>)
    requires
        !before(a, b),
        !before(b, c),
    ensures
        !before(a, c),
    decreases a.len(),
{
    if a.len() > 0 && b.len() > 0 && c.len() > 0 && a[0] == b[0] && b[0] == c[0] {
        lemma_not_before_chain(
            a.subrange(1, a.len() as int),
            b.subrange(1, b.len() as int),
            c.subrange(1, c.len() as int),
        );
    }
}

/// The decimal digits of a number, most significant first.
pub open spec fn decimal(n: nat) -> Seq<char>
    decreases n,
{
    if n < 10 {
        seq![digit(n)]
    } else {
        decimal(n / 10).push(digit(n % 10))
    }
}

/// The character of a one-digit number.
pub open spec fn digit(n: nat) -> char {
    ('0' as int + n) as char
}

/// The number that decimal digits spell; anything else spells none.
pub open spec fn spelled(s: Seq<char>) -> Option<nat>
    decreases s.len(),
{
    if s.len() == 0 || !('0' <= s.last() <= '9') {
        None
    } else if s.len() == 1 {
        Some((s.last() as int - '0' as int) as nat)
    } else {
        match spelled(s.drop_last()) {
            Some(head) => Some(head * 10 + (s.last() as int - '0' as int) as nat),
            None => None,
        }
    }
}

/// What a prefix spells bounds what the whole spells from below, and a prefix that spells nothing
/// spoils the whole.
pub proof fn lemma_spelled_prefix(s: Seq<char>, i: int)
    requires
        0 < i <= s.len(),
    ensures
        spelled(s) matches Some(n) ==> spelled(s.take(i)) matches Some(m) && m <= n,
    decreases s.len() - i,
{
    if i < s.len() {
        lemma_spelled_prefix(s, i + 1);
        assert(s.take(i + 1).drop_last() =~= s.take(i));
    } else {
        assert(s.take(i) =~= s);
    }
}

/// `s` with zeros in front up to three characters.
pub open spec fn three_wide(s: Seq<char>) -> Seq<char> {
    if s.len() == 0 {
        "000"@
    } else if s.len() == 1 {
        "00"@ + s
    } else if s.len() == 2 {
        "0"@ + s
    } else {
        s
    }
}

/// The decimal digits of a number spell it.
pub proof fn law_decimal_reads_back(n: nat)
    ensures
        spelled(decimal(n)) == Some(n),
    decreases n,
{
    let s = decimal(n);
    assert('0' as int == 48 && '9' as int == 57);
    if n < 10 {
        assert(s.last() == digit(n));
    } else {
        law_decimal_reads_back(n / 10);
        assert(s.drop_last() =~= decimal(n / 10));
        assert(s.last() == digit(n % 10));
    }
}

/// A zero in front changes nothing of what is spelled.
proof fn lemma_zero_in_front(s: Seq<char>)
    requires
        spelled(s) is Some,
    ensures
        spelled(seq!['0'] + s) == spelled(s),
    decreases s.len(),
{
    let z = seq!['0'] + s;
    assert('0' as int == 48);
    assert(z.last() == s.last());
    assert(z.drop_last() =~= seq!['0'] + s.drop_last());
    if s.len() == 1 {
        assert(z.drop_last() =~= seq!['0']);
        assert(spelled(seq!['0']) == Some(0nat));
    } else {
        lemma_zero_in_front(s.drop_last());
    }
}

/// Zeros in front up to three digits change nothing of what is spelled.
pub proof fn law_three_wide_reads_back(n: nat)
    ensures
        spelled(three_wide(decimal(n))) == Some(n),
{
    let s = decimal(n);
    law_decimal_reads_back(n);
    reveal_strlit("00");
    reveal_strlit("0");
    lemma_zero_in_front(s);
    lemma_zero_in_front(seq!['0'] + s);
    assert("00"@ + s =~= seq!['0'] + (seq!['0'] + s));
    assert("0"@ + s =~= seq!['0'] + s);
}

fn is_white_space(c: char) -> (b: bool)
    ensures
        b == white_space(c),
{
    let n: u32 = c as u32;
    (0x9 <= n && n <= 0xD) || n == 0x20 || n == 0x85 || n == 0xA0 || n == 0x1680 || (0x2000 <= n && n
        <= 0x200A) || n == 0x2028 || n == 0x2029 || n == 0x202F || n == 0x205F || n == 0x3000
}

fn raise(c: char) -> (u: char)
    ensures
        u == ascii_upper(c),
{
    if 'a' <= c && c <= 'z' {
        (c as u8 - 32) as char
    } else {
        c
    }
}

/// Whether `s`, without the white space around it and in upper case, is `word`.
pub fn trims_to(s: &str, word: &str) -> (b: bool)
    ensures
        b == (upper(trim(s@)) == word@),
{
    let n: usize = s.unicode_len();
    let mut lo: usize = 0;
    proof {
        assert(s@.subrange(0, n as int) =~= s@);
    }
    while lo < n && is_white_space(s.get_char(lo))
        invariant
            lo <= n,
            n == s@.len(),
            trim_start(s@) == trim_start(s@.subrange(lo as int, n as int)),
        decreases n - lo,
    {
        proof {
            let rest = s@.subrange(lo as int, n as int);
            assert(rest.subrange(1, rest.len() as int) =~= s@.subrange(lo + 1, n as int));
        }
        lo += 1;
    }
    let ghost left = s@.subrange(lo as int, n as int);
    proof {
        if left.len() > 0 {
            assert(left[0] == s@[lo as int]);
        }
        assert(trim_start(s@) == left);
    }
    let mut hi: usize = n;
    while hi > lo && is_white_space(s.get_char(hi - 1))
        invariant
            lo <= hi <= n,
            n == s@.len(),
            left == s@.subrange(lo as int, n as int),
            trim_end(left) == trim_end(s@.subrange(lo as int, hi as int)),
        decreases hi,
    {
        proof {
            let rest = s@.subrange(lo as int, hi as int);
            assert(rest.drop_last() =~= s@.subrange(lo as int, hi - 1));
            assert(rest.last() == s@[hi - 1]);
        }
        hi -= 1;
    }
    let ghost core = s@.subrange(lo as int, hi as int);
    proof {
        if core.len() > 0 {
            assert(core.last() == s@[hi - 1]);
        }
        assert(trim(s@) == core);
    }
    if hi - lo != word.unicode_len() {
        return false;
    }
    let mut i: usize = 0;
    while i < hi - lo
        invariant
            i <= hi - lo,
            lo <= hi <= n,
            n == s@.len(),
            core == s@.subrange(lo as int, hi as int),
            trim(s@) == core,
            word@.len() == hi - lo,
            forall|k: int| 0 <= k < i ==> upper(core)[k] == #[trigger] word@[k],
        decreases hi - lo - i,
    {
        if raise(s.get_char(lo + i)) != word.get_char(i) {
            proof {
                assert(upper(core)[i as int] == ascii_upper(s@[lo + i]));
            }
            return false;
        }
        i += 1;
    }
    proof {
        assert(upper(core) =~= word@);
    }
    true
}

/// Whether two texts are the same but for the case of ASCII letters.
pub fn eq_ignore_ascii_case(a: &str, b: &str) -> (same: bool)
    ensures
        same == (upper(a@) == upper(b@)),
{
    let n: usize = a.unicode_len();
    if n != b.unicode_len() {
        proof {
            assert(upper(a@).len() != upper(b@).len());
        }
        return false;
    }
    let mut i: usize = 0;
    while i < n
        invariant
            i <= n,
            n == a@.len(),
            n == b@.len(),
            forall|k: int| 0 <= k < i ==> #[trigger] upper(a@)[k] == upper(b@)[k],
        decreases n - i,
    {
        if raise(a.get_char(i)) != raise(b.get_char(i)) {
            proof {
                assert(upper(a@)[i as int] != upper(b@)[i as int]);
            }
            return false;
        }
        i += 1;
    }
    proof {
        assert(upper(a@) =~= upper(b@));
    }
    true
}

/// Whether two texts are the same.
pub fn same(a: &str, b: &str) -> (r: bool)
    ensures
        r == (a@ == b@),
{
    let n: usize = a.unicode_len();
    if n != b.unicode_len() {
        return false;
    }
    let mut i: usize = 0;
    while i < n
        invariant
            i <= n,
            n == a@.len(),
            n == b@.len(),
            forall|k: int| 0 <= k < i ==> #[trigger] a@[k] == b@[k],
        decreases n - i,
    {
        if a.get_char(i) != b.get_char(i) {
            return false;
        }
        i += 1;
    }
    assert(a@ =~= b@);
    true
}

/// Whether `needle` stands in `s` at `at`.
fn stands_at(s: &str, needle: &str, at: usize) -> (b: bool)
    requires
        at + needle@.len() <= s@.len(),
    ensures
        b == occurs_at(s@, needle@, at as int),
{
    let n: usize = needle.unicode_len();
    let total: usize = s.unicode_len();
    let mut i: usize = 0;
    while i < n
        invariant
            i <= n,
            n == needle@.len(),
            total == s@.len(),
            at + n <= total,
            forall|k: int| 0 <= k < i ==> s@[at + k] == #[trigger] needle@[k],
        decreases n - i,
    {
        if s.get_char(at + i) != needle.get_char(i) {
            proof {
                assert(s@.subrange(at as int, at + n)[i as int] != needle@[i as int]);
            }
            return false;
        }
        i += 1;
    }
    proof {
        assert(s@.subrange(at as int, at + n) =~= needle@);
    }
    true
}

/// Whether `needle` occurs in `s`.
pub fn contains(s: &str, needle: &str) -> (b: bool)
    ensures
        b == occurs(s@, needle@),
{
    let n: usize = s.unicode_len();
    let m: usize = needle.unicode_len();
    if m > n {
        return false;
    }
    let mut at: usize = 0;
    while at < n - m
        invariant
            m <= n,
            at <= n - m,
            n == s@.len(),
            m == needle@.len(),
            forall|k: int| 0 <= k < at ==> !occurs_at(s@, needle@, k),
        decreases n - m - at,
    {
        if stands_at(s, needle, at) {
            return true;
        }
        at += 1;
    }
    stands_at(s, needle, at)
}

/// Whether `s` ends with `tail`.
pub fn ends_with(s: &str, tail: &str) -> (b: bool)
    ensures
        b == (tail@.len() <= s@.len() && s@.subrange(s@.len() - tail@.len(), s@.len() as int)
            == tail@),
{
    let n: usize = s.unicode_len();
    let m: usize = tail.unicode_len();
    if m > n {
        return false;
    }
    stands_at(s, tail, n - m)
}

/// Whether `a` comes before `b` in the order of texts.
pub fn less(a: &str, b: &str) -> (r: bool)
    ensures
        r == before(a@, b@),
{
    let n: usize = a.unicode_len();
    let m: usize = b.unicode_len();
    let mut i: usize = 0;
    proof {
        assert(a@.subrange(0, n as int) =~= a@);
        assert(b@.subrange(0, m as int) =~= b@);
    }
    while i < n && i < m
        invariant
            i <= n,
            i <= m,
            n == a@.len(),
            m == b@.len(),
            before(a@, b@) == before(a@.subrange(i as int, n as int), b@.subrange(i as int, m as int)),
        decreases n - i,
    {
        let x: char = a.get_char(i);
        let y: char = b.get_char(i);
        let ghost p = a@.subrange(i as int, n as int);
        let ghost q = b@.subrange(i as int, m as int);
        proof {
            assert(p[0] == x && q[0] == y);
            assert(p.subrange(1, p.len() as int) =~= a@.subrange(i + 1, n as int));
            assert(q.subrange(1, q.len() as int) =~= b@.subrange(i + 1, m as int));
        }
        if x != y {
            return x < y;
        }
        i += 1;
    }
    i < m
}

/// The character of a one-digit number, as a text.
fn digit_text(n: u64) -> (s: &'static str)
    requires
        n < 10,
    ensures
        s@ == seq![digit(n as nat)],
{
    let s: &'static str = if n == 0 {
        "0"
    } else if n == 1 {
        "1"
    } else if n == 2 {
        "2"
    } else if n == 3 {
        "3"
    } else if n == 4 {
        "4"
    } else if n == 5 {
        "5"
    } else if n == 6 {
        "6"
    } else if n == 7 {
        "7"
    } else if n == 8 {
        "8"
    } else {
        "9"
    };
    proof {
        reveal_strlit("0");
        reveal_strlit("1");
        reveal_strlit("2");
        reveal_strlit("3");
        reveal_strlit("4");
        reveal_strlit("5");
        reveal_strlit("6");
        reveal_strlit("7");
        reveal_strlit("8");
        reveal_strlit("9");
        assert(s@ =~= seq![digit(n as nat)]);
    }
    s
}

/// A number in decimal.
pub fn number(n: u64) -> (s: String)
    ensures
        s@ == decimal(n as nat),
    decreases n,
{
    if n < 10 {
        digit_text(n).to_owned()
    } else {
        let head: String = number(n / 10);
        let whole: String = head.concat(digit_text(n % 10));
        proof {
            assert(whole@ =~= decimal(n as nat));
        }
        whole
    }
}

/// A number in decimal with zeros in front up to three digits.
pub fn number_three_wide(n: u64) -> (s: String)
    ensures
        s@ == three_wide(decimal(n as nat)),
{
    let digits: String = number(n);
    let width: usize = digits.as_str().unicode_len();
    if width == 0 {
        "000".to_owned()
    } else if width == 1 {
        "00".to_owned().concat(digits.as_str())
    } else if width == 2 {
        "0".to_owned().concat(digits.as_str())
    } else {
        digits
    }
}

/// Raising letters changes nothing but the case of the letters a to z: two texts are equal but for
/// case exactly where each pair of characters is.
pub proof fn law_case_is_all_that_is_ignored(a: Seq<char>, b: Seq<char>)
    ensures
        upper(a) == upper(b) <==> a.len() == b.len() && forall|i: int|
            0 <= i < a.len() ==> same_but_case(#[trigger] a[i], b[i]),
{
    assert forall|x: char, y: char| #[trigger] ascii_upper(x) == #[trigger] ascii_upper(y) <==> same_but_case(
        x,
        y,
    ) by {}
    if upper(a) == upper(b) {
        assert(a.len() == upper(a).len() && b.len() == upper(b).len());
        assert forall|i: int| 0 <= i < a.len() implies same_but_case(#[trigger] a[i], b[i]) by {
            assert(upper(a)[i] == ascii_upper(a[i]));
            assert(upper(b)[i] == ascii_upper(b[i]));
        }
    }
    if a.len() == b.len() && forall|i: int|
        0 <= i < a.len() ==> same_but_case(#[trigger] a[i], b[i]) {
        assert forall|i: int| 0 <= i < a.len() implies #[trigger] upper(a)[i] == upper(b)[i] by {
            assert(same_but_case(a[i], b[i]));
        }
        assert(upper(a) =~= upper(b));
    }
}

/// Two characters are the same, or the same letter of the alphabet a to z in two cases.
pub open spec fn same_but_case(a: char, b: char) -> bool {
    ||| a == b
    ||| 97 <= a as int <= 122 && b as int == a as int - 32
    ||| 97 <= b as int <= 122 && a as int == b as int - 32
}

/// A raised text has no letter a to z left, and raising it again changes nothing.
pub proof fn law_raised_text_stays(s: Seq<char>)
    ensures
        upper(s).len() == s.len(),
        forall|i: int| 0 <= i < s.len() ==> !(97 <= #[trigger] upper(s)[i] as int <= 122),
        upper(upper(s)) == upper(s),
{
    assert(upper(upper(s)) =~= upper(s));
}

/// Trimming takes the white space off both ends and nothing else: a text that begins and ends with
/// something else comes out whole, whatever white space stands around it.
pub proof fn law_trimming_bares_the_core(front: Seq<char>, core: Seq<char>, back: Seq<char>)
    requires
        forall|i: int| 0 <= i < front.len() ==> white_space(#[trigger] front[i]),
        forall|i: int| 0 <= i < back.len() ==> white_space(#[trigger] back[i]),
        core.len() > 0 ==> !white_space(core[0]) && !white_space(core.last()),
    ensures
        core.len() > 0 ==> trim(front + core + back) == core,
    decreases front.len() + back.len(),
{
    if core.len() > 0 {
        let whole = front + core + back;
        if front.len() > 0 {
            let rest = front.subrange(1, front.len() as int);
            assert(whole[0] == front[0]);
            assert(whole.subrange(1, whole.len() as int) =~= rest + core + back);
            law_trimming_bares_the_core(rest, core, back);
        } else {
            assert(whole[0] == core[0]);
            assert(trim_start(whole) == whole);
            if back.len() > 0 {
                assert(whole.last() == back.last());
                assert(whole.drop_last() =~= front + core + back.drop_last());
                law_trimming_bares_the_core(front, core, back.drop_last());
                assert(trim_start(whole.drop_last()) == whole.drop_last());
            } else {
                assert(whole =~= core);
            }
        }
    }
}

/// Of the ASCII characters, tab, line feed, vertical tab, form feed, carriage return and space are
/// white.
pub proof fn law_ascii_white_space(c: char)
    requires
        (c as int) < 128,
    ensures
        white_space(c) <==> c == ' ' || c == '\t' || c == '\n' || c == '\r' || c as int == 11
            || c as int == 12,
{
}

/// Texts are ordered as in a dictionary: behind a common beginning the rest decides, the smaller
/// character comes first, and a text comes before its continuations.
pub proof fn law_order_of_a_dictionary(
    head: Seq<char>,
    x: char,
    a: Seq<char>,
    y: char,
    b: Seq<char>,
)
    ensures
        x < y ==> before(head + seq![x] + a, head + seq![y] + b),
        before(head, head + seq![y] + b),
        !before(head + seq![x] + a, head),
        !before(head, head),
    decreases head.len(),
{
    if head.len() == 0 {
        let l = head + seq![x] + a;
        let r = head + seq![y] + b;
        assert(l[0] == x && r[0] == y);
    } else {
        let rest = head.subrange(1, head.len() as int);
        law_order_of_a_dictionary(rest, x, a, y, b);
        let l = head + seq![x] + a;
        let r = head + seq![y] + b;
        assert(l[0] == head[0] && r[0] == head[0]);
        assert(l.subrange(1, l.len() as int) =~= rest + seq![x] + a);
        assert(r.subrange(1, r.len() as int) =~= rest + seq![y] + b);
    }
}

/// The digits are the ten characters from `0` up, and a number is written without needless zeros in
/// front.
pub proof fn law_numbers_are_written_plainly(n: nat)
    ensures
        n < 10 ==> digit(n) as int == 48 + n,
        decimal(n).len() > 0,
        n > 0 ==> decimal(n)[0] != '0',
        n == 0 ==> decimal(n) == "0"@,
        n >= 10 ==> decimal(n).drop_last() == decimal(n / 10),
    decreases n,
{
    reveal_strlit("0");
    if n < 10 {
        assert(decimal(n) =~= seq![digit(n)]);
    } else {
        law_numbers_are_written_plainly(n / 10);
        assert(decimal(n)[0] == decimal(n / 10)[0]);
        assert(decimal(n).drop_last() =~= decimal(n / 10));
    }
    if n == 0 {
        assert(decimal(n) =~= "0"@);
    }
}

/// Padding fills up to three characters with zeros in front and leaves longer texts alone.
pub proof fn law_padding_only_adds_zeros_in_front(s: Seq<char>)
    ensures
        s.len() >= 3 ==> three_wide(s) == s,
        s.len() < 3 ==> three_wide(s).len() == 3,
        three_wide(s).subrange(three_wide(s).len() - s.len(), three_wide(s).len() as int) == s,
        forall|i: int| 0 <= i < three_wide(s).len() - s.len() ==> #[trigger] three_wide(s)[i] == '0',
{
    reveal_strlit("0");
    reveal_strlit("00");
    reveal_strlit("000");
    assert(three_wide(s).subrange(three_wide(s).len() - s.len(), three_wide(s).len() as int) =~= s);
}

/// A needle occurs in a text exactly where the text can be split around it.
pub proof fn law_occurrence_splits_the_text(a: Seq<char>, needle: Seq<char>, b: Seq<char>)
    ensures
        occurs(a + needle + b, needle),
        needle.len() > a.len() ==> !occurs(a, needle),
{
    let s = a + needle + b;
    assert(s.subrange(a.len() as int, (a.len() + needle.len()) as int) =~= needle);
    assert(occurs_at(s, needle, a.len() as int));
}

/// Where a needle occurs, its characters stand in a row.
pub proof fn law_occurrence_shows_the_needle(s: Seq<char>, needle: Seq<char>)
    ensures
        occurs(s, needle) <==> exists|at: int|
            #![trigger stands(s, needle, at)]
            stands(s, needle, at),
{
    if occurs(s, needle) {
        let at = choose|at: int| occurs_at(s, needle, at);
        assert forall|i: int| 0 <= i < needle.len() implies s[at + i] == #[trigger] needle[i] by {
            assert(s.subrange(at, at + needle.len())[i] == needle[i]);
        }
        assert(stands(s, needle, at));
    }
    if exists|at: int| #![trigger stands(s, needle, at)] stands(s, needle, at) {
        let at = choose|at: int| #![trigger stands(s, needle, at)] stands(s, needle, at);
        assert(s.subrange(at, at + needle.len()) =~= needle);
        assert(occurs_at(s, needle, at));
    }
}

/// The characters of a needle stand in a text, one after the other, from a position on.
pub open spec fn stands(s: Seq<char>, needle: Seq<char>, at: int) -> bool {
    &&& 0 <= at
    &&& at + needle.len() <= s.len()
    &&& forall|i: int| 0 <= i < needle.len() ==> s[at + i] == #[trigger] needle[i]
}

/// An optional text is the text where there is one.
pub proof fn law_optional_text_is_the_text(s: &str)
    ensures
        chars(Some(s)) == Some(s@),
        chars(None) is None,
{
}

} // verus!

//! Small text operations, each stated over the characters of its arguments.
use vstd::prelude::*;

verus! {

/// The decimal digit for `d`.
pub open spec fn digit(d: nat) -> char {
    (48 + d) as char
}

/// `n` written in decimal, with no leading zero.
pub open spec fn dec(n: nat) -> Seq<char>
    decreases n,
{
    if n < 10 {
        seq![digit(n)]
    } else {
        dec(n / 10).push(digit(n % 10))
    }
}

/// `n` written in decimal, a minus sign first when it is negative.
pub open spec fn signed_dec(n: int) -> Seq<char> {
    if n < 0 {
        seq!['-'] + dec((-n) as nat)
    } else {
        dec(n as nat)
    }
}

/// `c` repeated `n` times.
pub open spec fn repeated(c: char, n: nat) -> Seq<char> {
    Seq::new(n, |i: int| c)
}

/// `s` followed by enough spaces to reach `width` characters.
pub open spec fn padded(s: Seq<char>, width: nat) -> Seq<char> {
    if s.len() < width {
        s + repeated(' ', (width - s.len()) as nat)
    } else {
        s
    }
}

/// `s` preceded by enough spaces to reach `width` characters.
pub open spec fn right_aligned(s: Seq<char>, width: nat) -> Seq<char> {
    if s.len() < width {
        repeated(' ', (width - s.len()) as nat) + s
    } else {
        s
    }
}

/// The characters of each string.
pub open spec fn views(parts: Seq<String>) -> Seq<Seq<char>> {
    parts.map_values(|p: String| p@)
}

/// The parts in order with `sep` between each two.
pub open spec fn joined(parts: Seq<Seq<char>>, sep: Seq<char>) -> Seq<char>
    decreases parts.len(),
{
    if parts.len() == 0 {
        Seq::empty()
    } else if parts.len() == 1 {
        parts[0]
    } else {
        joined(parts.drop_last(), sep) + sep + parts.last()
    }
}

/// Unicode's White_Space property.
pub open spec fn is_white_space(c: char) -> bool {
    let n = c as int;
    ||| 9 <= n <= 13
    ||| n == 32
    ||| n == 0x85
    ||| n == 0xA0
    ||| n == 0x1680
    ||| 0x2000 <= n <= 0x200A
    ||| n == 0x2028
    ||| n == 0x2029
    ||| n == 0x202F
    ||| n == 0x205F
    ||| n == 0x3000
}

/// `s` without its trailing whitespace.
pub open spec fn trimmed_end(s: Seq<char>) -> Seq<char>
    decreases s.len(),
{
    if s.len() > 0 && is_white_space(s.last()) {
        trimmed_end(s.drop_last())
    } else {
        s
    }
}

/// `s` without its leading whitespace.
pub open spec fn trimmed_start(s: Seq<char>) -> Seq<char>
    decreases s.len(),
{
    if s.len() > 0 && is_white_space(s[0]) {
        trimmed_start(s.drop_first())
    } else {
        s
    }
}

/// `s` without whitespace at either end.
pub open spec fn trimmed(s: Seq<char>) -> Seq<char> {
    trimmed_end(trimmed_start(s))
}

/// `s` without the line feeds and carriage returns it ends in.
pub open spec fn without_line_end(s: Seq<char>) -> Seq<char>
    decreases s.len(),
{
    if s.len() > 0 && (s.last() == '\n' || s.last() == '\r') {
        without_line_end(s.drop_last())
    } else {
        s
    }
}

/// Where `c` first occurs in `s` at or after `from`, or the length of `s`.
pub open spec fn index_from(s: Seq<char>, c: char, from: int) -> int
    decreases s.len() - from,
{
    if 0 <= from < s.len() {
        if s[from] == c {
            from
        } else {
            index_from(s, c, from + 1)
        }
    } else {
        s.len() as int
    }
}

/// The text before the first line feed, without one carriage return at its end.
pub open spec fn first_line_of(s: Seq<char>) -> Seq<char> {
    let end = index_from(s, '\n', 0);
    if end < s.len() && end > 0 && s[end - 1] == '\r' {
        s.take(end - 1)
    } else {
        s.take(end)
    }
}

/// The parts of `s` from `from` on, cut at every `c`.
pub open spec fn split_from(s: Seq<char>, c: char, from: int) -> Seq<Seq<char>>
    decreases s.len() - from,
{
    if 0 <= from <= s.len() {
        let end = index_from(s, c, from);
        if from <= end < s.len() {
            seq![s.subrange(from, end)] + split_from(s, c, end + 1)
        } else {
            seq![s.skip(from)]
        }
    } else {
        Seq::empty()
    }
}

/// The parts of `s`, cut at every `c`.
pub open spec fn split_on(s: Seq<char>, c: char) -> Seq<Seq<char>> {
    split_from(s, c, 0)
}

/// Do the two texts hold the same characters?
pub fn same(a: &str, b: &str) -> (r: bool)
    ensures
        r == (a@ == b@),
{
    a.to_owned() == b.to_owned()
}

fn digit_text(d: u64) -> (r: &'static str)
    requires
        d < 10,
    ensures
        r@ == seq![digit(d as nat)],
{
    proof {
        reveal_strlit("0");
        reveal_strlit("1");
        reveal_strlit("2");
        reveal_strlit("3");
        reveal_strlit("4");
        reveal_strlit("5");
        reveal_strlit("6");
        reveal_strlit("7");
        reveal_strlit("8");
        reveal_strlit("9");
    }
    if d == 0 {
        "0"
    } else if d == 1 {
        "1"
    } else if d == 2 {
        "2"
    } else if d == 3 {
        "3"
    } else if d == 4 {
        "4"
    } else if d == 5 {
        "5"
    } else if d == 6 {
        "6"
    } else if d == 7 {
        "7"
    } else if d == 8 {
        "8"
    } else {
        "9"
    }
}

/// `n` in decimal.
pub fn decimal(n: u64) -> (r: String)
    ensures
        r@ == dec(n as nat),
    decreases n,
{
    if n < 10 {
        digit_text(n).to_owned()
    } else {
        let mut head = decimal(n / 10);
        head.append(digit_text(n % 10));
        head
    }
}

/// `n` in decimal, signed.
pub fn signed_decimal(n: i64) -> (r: String)
    ensures
        r@ == signed_dec(n as int),
{
    if n < 0 {
        let magnitude: u64 = if n == i64::MIN {
            9_223_372_036_854_775_808u64
        } else {
            (-n) as u64
        };
        let mut out = "-".to_owned();
        proof {
            reveal_strlit("-");
        }
        let digits = decimal(magnitude);
        out.append(digits.as_str());
        out
    } else {
        decimal(n as u64)
    }
}

/// `n` copies of `c`, given as a one-character text.
pub fn repeat(c: &str, n: usize) -> (r: String)
    requires
        c@.len() == 1,
    ensures
        r@ == repeated(c@[0], n as nat),
{
    let mut out = String::new();
    let mut i: usize = 0;
    while i < n
        invariant
            i <= n,
            c@.len() == 1,
            out@ == repeated(c@[0], i as nat),
        decreases n - i,
    {
        out.append(c);
        i = i + 1;
        assert(out@ == repeated(c@[0], i as nat));
    }
    out
}

/// Left-aligned in `width` characters.
pub fn pad(s: &str, width: usize) -> (r: String)
    ensures
        r@ == padded(s@, width as nat),
{
    let n = s.unicode_len();
    let mut out = s.to_owned();
    if n < width {
        proof {
            reveal_strlit(" ");
        }
        let spaces = repeat(" ", width - n);
        out.append(spaces.as_str());
    }
    out
}

/// Right-aligned in `width` characters.
pub fn align_right(s: &str, width: usize) -> (r: String)
    ensures
        r@ == right_aligned(s@, width as nat),
{
    let n = s.unicode_len();
    if n < width {
        proof {
            reveal_strlit(" ");
        }
        let mut out = repeat(" ", width - n);
        out.append(s);
        out
    } else {
        s.to_owned()
    }
}

/// The parts with `sep` between each two.
pub fn join(parts: &Vec<String>, sep: &str) -> (r: String)
    ensures
        r@ == joined(views(parts@), sep@),
{
    let mut out = String::new();
    let ghost all = views(parts@);
    let mut i: usize = 0;
    while i < parts.len()
        invariant
            i <= parts.len(),
            all == views(parts@),
            out@ == joined(all.take(i as int), sep@),
        decreases parts.len() - i,
    {
        if i > 0 {
            out.append(sep);
        }
        out.append(parts[i].as_str());
        i = i + 1;
        assert(all.take(i as int).drop_last() == all.take(i - 1));
        assert(all.take(i as int).last() == all[i - 1]);
        assert(i == 1 ==> out@ == all[0]);
    }
    assert(all.take(i as int) == all);
    out
}

/// Is `c` whitespace?
pub fn white_space(c: char) -> (r: bool)
    ensures
        r == is_white_space(c),
{
    let n: u32 = c as u32;
    (9 <= n && n <= 13) || n == 32 || n == 0x85 || n == 0xA0 || n == 0x1680 || (0x2000 <= n && n
        <= 0x200A) || n == 0x2028 || n == 0x2029 || n == 0x202F || n == 0x205F || n == 0x3000
}

/// The characters of a text.
pub fn chars_of(s: &str) -> (r: Vec<char>)
    ensures
        r@ == s@,
{
    let n = s.unicode_len();
    let mut out: Vec<char> = Vec::new();
    let mut i: usize = 0;
    while i < n
        invariant
            i <= n,
            n == s@.len(),
            out@ == s@.take(i as int),
        decreases n - i,
    {
        out.push(s.get_char(i));
        i = i + 1;
        assert(out@ == s@.take(i as int));
    }
    assert(s@.take(n as int) == s@);
    out
}

/// The text without its trailing whitespace.
pub fn trim_end(s: &str) -> (r: String)
    ensures
        r@ == trimmed_end(s@),
{
    let mut n = s.unicode_len();
    assert(s@.take(n as int) == s@);
    while n > 0
        invariant
            n <= s@.len(),
            trimmed_end(s@.take(n as int)) == trimmed_end(s@),
        ensures
            s@.take(n as int) == trimmed_end(s@),
        decreases n,
    {
        if !white_space(s.get_char(n - 1)) {
            break;
        }
        assert(s@.take(n as int).drop_last() == s@.take(n - 1));
        n = n - 1;
    }
    let kept = s.substring_char(0, n);
    assert(kept@ == s@.take(n as int));
    kept.to_owned()
}

/// The text without whitespace at either end.
pub fn trim(s: &str) -> (r: String)
    ensures
        r@ == trimmed(s@),
{
    let n = s.unicode_len();
    let mut i: usize = 0;
    assert(s@.skip(0) == s@);
    while i < n
        invariant
            i <= n,
            n == s@.len(),
            trimmed_start(s@.skip(i as int)) == trimmed_start(s@),
        ensures
            i <= n,
            s@.skip(i as int) == trimmed_start(s@),
        decreases n - i,
    {
        if !white_space(s.get_char(i)) {
            break;
        }
        assert(s@.skip(i as int).drop_first() == s@.skip(i + 1));
        i = i + 1;
    }
    let kept = s.substring_char(i, n);
    assert(kept@ == s@.skip(i as int));
    trim_end(kept)
}

/// A typed line without its line ending, and nothing else removed.
pub fn strip_line_end(s: &str) -> (r: String)
    ensures
        r@ == without_line_end(s@),
{
    let mut n = s.unicode_len();
    assert(s@.take(n as int) == s@);
    while n > 0
        invariant
            n <= s@.len(),
            without_line_end(s@.take(n as int)) == without_line_end(s@),
        ensures
            s@.take(n as int) == without_line_end(s@),
        decreases n,
    {
        let c = s.get_char(n - 1);
        if c != '\n' && c != '\r' {
            break;
        }
        assert(s@.take(n as int).drop_last() == s@.take(n - 1));
        n = n - 1;
    }
    let kept = s.substring_char(0, n);
    assert(kept@ == s@.take(n as int));
    kept.to_owned()
}

/// The index of the first `c` at or after `from`, or the length.
pub fn find_from(s: &[char], c: char, from: usize) -> (r: usize)
    requires
        from <= s@.len(),
    ensures
        r == index_from(s@, c, from as int),
        from <= r <= s@.len(),
{
    let mut i: usize = from;
    while i < s.len()
        invariant
            from <= i <= s@.len(),
            index_from(s@, c, from as int) == index_from(s@, c, i as int),
        ensures
            from <= i <= s@.len(),
            i == index_from(s@, c, from as int),
        decreases s@.len() - i,
    {
        if s[i] == c {
            break;
        }
        i = i + 1;
    }
    i
}

/// The parts of a text, cut at every `c`.
pub fn split(s: &str, c: char) -> (r: Vec<String>)
    ensures
        views(r@) == split_on(s@, c),
        r@.len() > 0,
{
    let chars = chars_of(s);
    let mut out: Vec<String> = Vec::new();
    let mut from: usize = 0;
    assert(views(out@) + split_from(s@, c, 0) == split_on(s@, c));
    loop
        invariant
            chars@ == s@,
            from <= s@.len(),
            views(out@) + split_from(s@, c, from as int) == split_on(s@, c),
        ensures
            from <= s@.len(),
            (views(out@)).push(s@.skip(from as int)) == split_on(s@, c),
        decreases s@.len() - from,
    {
        let end = find_from(chars.as_slice(), c, from);
        if end >= chars.len() {
            assert(views(out@).push(s@.skip(from as int)) == views(out@) + split_from(
                s@,
                c,
                from as int,
            ));
            break;
        }
        let part = s.substring_char(from, end);
        assert(part@ == s@.subrange(from as int, end as int));
        let ghost before = views(out@);
        out.push(part.to_owned());
        assert(views(out@) == before.push(part@));
        assert(before + split_from(s@, c, from as int) == before.push(part@) + split_from(
            s@,
            c,
            end + 1,
        ));
        from = end + 1;
    }
    let rest = s.substring_char(from, chars.len());
    assert(rest@ == s@.skip(from as int));
    let ghost before = views(out@);
    out.push(rest.to_owned());
    assert(views(out@) == before.push(rest@));
    out
}

/// The first line of a text.
pub fn first_line(s: &str) -> (r: String)
    ensures
        r@ == first_line_of(s@),
{
    let chars = chars_of(s);
    let end = find_from(chars.as_slice(), '\n', 0);
    let cut: usize = if end < chars.len() && end > 0 && chars[end - 1] == '\r' {
        end - 1
    } else {
        end
    };
    let kept = s.substring_char(0, cut);
    assert(kept@ == s@.take(cut as int));
    kept.to_owned()
}

/// Does the text end in `suffix`?
pub fn ends_with(s: &str, suffix: &str) -> (r: bool)
    ensures
        r == suffix@.is_suffix_of(s@),
{
    let n = s.unicode_len();
    let m = suffix.unicode_len();
    if m > n {
        false
    } else {
        let tail = s.substring_char(n - m, n);
        assert(tail@ == s@.subrange((n - m) as int, n as int));
        same(tail, suffix)
    }
}

// ── what the texts keep ──────────────────────────────────────────────────────

/// Does `s` read `part` at this place?
pub open spec fn reads(s: Seq<char>, at: int, part: Seq<char>) -> bool {
    0 <= at && at + part.len() <= s.len() && s.subrange(at, at + part.len()) == part
}

/// Is `s` this part with these texts round it?
pub open spec fn surrounded(
    s: Seq<char>,
    before: Seq<char>,
    part: Seq<char>,
    after: Seq<char>,
) -> bool {
    s == before + part + after
}

/// Does `s` read `x` directly behind the label, and is `t` the same text with `y` in place of
/// that `x` and nothing else changed?
pub open spec fn differ_behind(
    s: Seq<char>,
    t: Seq<char>,
    label: Seq<char>,
    x: Seq<char>,
    y: Seq<char>,
) -> bool {
    exists|before: Seq<char>, after: Seq<char>|
        #[trigger] surrounded(s, before, label + x, after) && surrounded(
            t,
            before,
            label + y,
            after,
        )
}

/// How many times `c` stands in `s`.
pub open spec fn count_of(s: Seq<char>, c: char) -> nat {
    s.to_multiset().count(c)
}

/// The number that a text of decimal digits stands for.
pub open spec fn value(digits: Seq<char>) -> int
    decreases digits.len(),
{
    if digits.len() == 0 {
        0
    } else {
        10 * value(digits.drop_last()) + (digits.last() as int - '0' as int)
    }
}

/// What stands between two texts is read there.
pub proof fn the_middle_is_read(before: Seq<char>, part: Seq<char>, after: Seq<char>)
    ensures
        reads(before + part + after, before.len() as int, part),
{
    assert((before + part + after).subrange(
        before.len() as int,
        (before.len() + part.len()) as int,
    ) == part);
}

/// The parts one after the other.
pub open spec fn run_together(parts: Seq<Seq<char>>) -> Seq<char>
    decreases parts.len(),
{
    if parts.len() == 0 {
        Seq::empty()
    } else {
        run_together(parts.drop_last()) + parts.last()
    }
}

/// One part more stands behind the others.
pub proof fn one_more_part(parts: Seq<Seq<char>>, part: Seq<char>)
    ensures
        run_together(parts.push(part)) == run_together(parts) + part,
{
    assert(parts.push(part).drop_last() == parts);
}

/// One part alone is the text.
pub proof fn one_part(part: Seq<char>)
    ensures
        run_together(seq![part]) == part,
{
    one_more_part(Seq::empty(), part);
    assert(Seq::<char>::empty() + part == part);
}

/// Two lists of parts run together one behind the other.
pub proof fn parts_and_parts(a: Seq<Seq<char>>, b: Seq<Seq<char>>)
    ensures
        run_together(a + b) == run_together(a) + run_together(b),
    decreases b.len(),
{
    if b.len() == 0 {
        assert(a + b == a);
    } else {
        parts_and_parts(a, b.drop_last());
        assert((a + b).drop_last() == a + b.drop_last());
        assert((a + b).last() == b.last());
    }
}

/// Where two lists of parts differ in one of them, the texts differ behind the part before it and
/// nowhere else.
pub proof fn a_change_in_one_part(a: Seq<Seq<char>>, b: Seq<Seq<char>>, k: int)
    requires
        0 < k < a.len(),
        a.len() == b.len(),
        forall|i: int| 0 <= i < a.len() && i != k ==> #[trigger] a[i] == b[i],
    ensures
        differ_behind(run_together(a), run_together(b), a[k - 1], a[k], b[k]),
{
    let front = a.take(k - 1);
    let back = a.skip(k + 1);
    assert(a.take(k) =~= front.push(a[k - 1]));
    assert(a.take(k + 1) =~= a.take(k).push(a[k]));
    assert(a =~= a.take(k + 1) + back);
    assert(b.take(k + 1) =~= a.take(k).push(b[k]));
    assert(b =~= b.take(k + 1) + back);
    one_more_part(front, a[k - 1]);
    one_more_part(a.take(k), a[k]);
    one_more_part(a.take(k), b[k]);
    parts_and_parts(a.take(k + 1), back);
    parts_and_parts(b.take(k + 1), back);
    a_change_behind_a_label(run_together(front), a[k - 1], a[k], b[k], run_together(back));
}

/// Two texts that are the same but for what stands behind a label differ only there.
pub proof fn a_change_behind_a_label(
    before: Seq<char>,
    label: Seq<char>,
    x: Seq<char>,
    y: Seq<char>,
    after: Seq<char>,
)
    ensures
        differ_behind(
            before + label + x + after,
            before + label + y + after,
            label,
            x,
            y,
        ),
{
    assert(surrounded(before + label + x + after, before, label + x, after)) by {
        assert(before + label + x + after =~= before + (label + x) + after);
    }
    assert(surrounded(before + label + y + after, before, label + y, after)) by {
        assert(before + label + y + after =~= before + (label + y) + after);
    }
}

/// A character stands in two texts as often as in the one and the other together.
pub proof fn counts_of_two_texts(a: Seq<char>, b: Seq<char>, c: char)
    ensures
        count_of(a + b, c) == count_of(a, c) + count_of(b, c),
{
    vstd::seq_lib::lemma_multiset_commutative(a, b);
}

/// A character a text does not contain stands in it no times.
pub proof fn what_is_absent_is_not_counted(s: Seq<char>, c: char)
    requires
        !s.contains(c),
    ensures
        count_of(s, c) == 0,
{
    broadcast use vstd::seq_lib::group_to_multiset_ensures;

}

/// A number in decimal is made of digits, stands for that number, and starts with a zero only
/// where it is zero. So no two numbers are written alike.
pub proof fn decimals_read_back(n: nat)
    ensures
        value(dec(n)) == n,
        dec(n).len() > 0,
        forall|i: int| 0 <= i < dec(n).len() ==> '0' <= #[trigger] dec(n)[i] <= '9',
        dec(n)[0] == '0' <==> n == 0,
    decreases n,
{
    if n < 10 {
        assert(dec(n).drop_last() == Seq::<char>::empty());
        assert(value(Seq::<char>::empty()) == 0);
        assert(dec(n).last() == digit(n));
    } else {
        decimals_read_back(n / 10);
        assert(dec(n).drop_last() == dec(n / 10));
        assert(dec(n).last() == digit(n % 10));
        assert(dec(n)[0] == dec(n / 10)[0]);
        assert forall|i: int| 0 <= i < dec(n).len() implies '0' <= #[trigger] dec(n)[i] <= '9' by {
            if i < dec(n / 10).len() {
                assert(dec(n)[i] == dec(n / 10)[i]);
            }
        }
    }
}

/// A negative number is its magnitude behind a minus sign, and any other has no sign.
pub proof fn signed_decimals_read_back(n: int)
    ensures
        n < 0 ==> signed_dec(n)[0] == '-' && value(signed_dec(n).skip(1)) == -n,
        n >= 0 ==> '0' <= signed_dec(n)[0] <= '9' && value(signed_dec(n)) == n,
{
    if n < 0 {
        decimals_read_back((-n) as nat);
        assert(signed_dec(n).skip(1) == dec((-n) as nat));
    } else {
        decimals_read_back(n as nat);
    }
}

/// Padding reaches the width, and adds only spaces behind the text.
pub proof fn padding_adds_spaces_behind(s: Seq<char>, width: nat)
    ensures
        padded(s, width).len() == if s.len() < width { width } else { s.len() },
        padded(s, width).take(s.len() as int) == s,
        forall|i: int|
            s.len() <= i < padded(s, width).len() ==> #[trigger] padded(s, width)[i] == ' ',
{
}

/// Aligning to the right reaches the width, and adds only spaces in front of the text.
pub proof fn alignment_adds_spaces_in_front(s: Seq<char>, width: nat)
    ensures
        ({
            let r = right_aligned(s, width);
            &&& r.len() == if s.len() < width { width } else { s.len() }
            &&& r.skip(r.len() - s.len()) == s
            &&& forall|i: int| 0 <= i < r.len() - s.len() ==> #[trigger] r[i] == ' '
        }),
{
    let r = right_aligned(s, width);
    assert(r.skip(r.len() - s.len()) =~= s);
}

/// Joining puts one separator between each two parts: nothing round a single one, and the
/// separator before each that follows.
pub proof fn joining_separates(parts: Seq<Seq<char>>, last: Seq<char>, sep: Seq<char>)
    ensures
        joined(parts.push(last), sep) == if parts.len() == 0 {
            last
        } else {
            joined(parts, sep) + sep + last
        },
        joined(Seq::empty(), sep).len() == 0,
{
    assert(parts.push(last).drop_last() == parts);
}

/// Trimming the end takes whitespace off the end, all of it, and nothing else.
pub proof fn only_whitespace_is_trimmed_off_the_end(s: Seq<char>)
    ensures
        ({
            let kept = trimmed_end(s);
            &&& kept.len() <= s.len()
            &&& kept == s.take(kept.len() as int)
            &&& forall|i: int| kept.len() <= i < s.len() ==> is_white_space(#[trigger] s[i])
            &&& kept.len() > 0 ==> !is_white_space(kept.last())
        }),
    decreases s.len(),
{
    if s.len() > 0 && is_white_space(s.last()) {
        let rest = s.drop_last();
        only_whitespace_is_trimmed_off_the_end(rest);
        let kept = trimmed_end(s);
        assert(kept == s.take(kept.len() as int));
        assert forall|i: int| kept.len() <= i < s.len() implies is_white_space(#[trigger] s[i]) by {
            if i < rest.len() {
                assert(rest[i] == s[i]);
            }
        }
    } else {
        assert(s == s.take(s.len() as int));
    }
}

proof fn only_whitespace_is_trimmed_off_the_start(s: Seq<char>)
    ensures
        ({
            let kept = trimmed_start(s);
            let cut = s.len() - kept.len();
            &&& kept.len() <= s.len()
            &&& kept == s.skip(cut)
            &&& forall|i: int| 0 <= i < cut ==> is_white_space(#[trigger] s[i])
            &&& kept.len() > 0 ==> !is_white_space(kept[0])
        }),
    decreases s.len(),
{
    if s.len() > 0 && is_white_space(s[0]) {
        let rest = s.drop_first();
        only_whitespace_is_trimmed_off_the_start(rest);
        let kept = trimmed_start(s);
        let cut = s.len() - kept.len();
        assert(kept == s.skip(cut));
        assert forall|i: int| 0 <= i < cut implies is_white_space(#[trigger] s[i]) by {
            if i > 0 {
                assert(rest[i - 1] == s[i]);
            }
        }
    } else {
        assert(s == s.skip(0));
    }
}

/// Trimming takes whitespace off both ends, all of it, and nothing else.
pub proof fn only_whitespace_is_trimmed_off(s: Seq<char>)
    ensures
        exists|from: int, to: int|
            {
                &&& 0 <= from <= to <= s.len()
                &&& trimmed(s) == #[trigger] s.subrange(from, to)
                &&& forall|i: int| 0 <= i < from ==> is_white_space(#[trigger] s[i])
                &&& forall|i: int| to <= i < s.len() ==> is_white_space(#[trigger] s[i])
            },
        trimmed(s).len() > 0 ==> !is_white_space(trimmed(s)[0]) && !is_white_space(
            trimmed(s).last(),
        ),
{
    let front = trimmed_start(s);
    only_whitespace_is_trimmed_off_the_start(s);
    only_whitespace_is_trimmed_off_the_end(front);
    let from = s.len() - front.len();
    let to = from + trimmed(s).len();
    assert(trimmed(s) == s.subrange(from, to));
    assert forall|i: int| to <= i < s.len() implies is_white_space(#[trigger] s[i]) by {
        assert(front[i - from] == s[i]);
    }
    if trimmed(s).len() > 0 {
        assert(trimmed(s)[0] == front[0]);
    }
}

/// Only line feeds and carriage returns are taken off the end of a line, and all of them are: a
/// space in front of them stays.
pub proof fn only_line_ends_are_taken_off(s: Seq<char>)
    ensures
        ({
            let kept = without_line_end(s);
            &&& kept.len() <= s.len()
            &&& kept == s.take(kept.len() as int)
            &&& forall|i: int|
                kept.len() <= i < s.len() ==> (#[trigger] s[i] == '\n' || s[i] == '\r')
            &&& kept.len() > 0 ==> kept.last() != '\n' && kept.last() != '\r'
        }),
    decreases s.len(),
{
    if s.len() > 0 && (s.last() == '\n' || s.last() == '\r') {
        let rest = s.drop_last();
        only_line_ends_are_taken_off(rest);
        let kept = without_line_end(s);
        assert(kept == s.take(kept.len() as int));
        assert forall|i: int| kept.len() <= i < s.len() implies (#[trigger] s[i] == '\n' || s[i]
            == '\r') by {
            if i < rest.len() {
                assert(rest[i] == s[i]);
            }
        }
    } else {
        assert(s == s.take(s.len() as int));
    }
}

/// The first place of a character is a place of it, and it stands nowhere before.
pub proof fn the_first_place_is_found(s: Seq<char>, c: char, from: int)
    requires
        0 <= from <= s.len(),
    ensures
        ({
            let at = index_from(s, c, from);
            &&& from <= at <= s.len()
            &&& at < s.len() ==> s[at] == c
            &&& forall|i: int| from <= i < at ==> #[trigger] s[i] != c
        }),
    decreases s.len() - from,
{
    if from < s.len() && s[from] != c {
        the_first_place_is_found(s, c, from + 1);
    }
}

/// A first line goes up to the first line feed, whichever way the line ends, and is the whole
/// text where there is none.
pub proof fn the_first_line_ends_where_the_line_does(line: Seq<char>, rest: Seq<char>)
    requires
        !line.contains('\n'),
    ensures
        line.len() == 0 || line.last() != '\r' ==> first_line_of(line + seq!['\n'] + rest) == line,
        first_line_of(line + seq!['\r', '\n'] + rest) == line,
        first_line_of(line) == line,
{
    let n = line.len() as int;
    let bare = line + seq!['\n'] + rest;
    the_first_place_is_found(bare, '\n', 0);
    assert(bare[n] == '\n');
    assert forall|i: int| 0 <= i < n implies bare[i] != '\n' by {
        assert(bare[i] == line[i]);
    }
    assert(index_from(bare, '\n', 0) == n);
    if n > 0 {
        assert(bare[n - 1] == line.last());
    }
    assert(bare.take(n) == line);
    let full = line + seq!['\r', '\n'] + rest;
    the_first_place_is_found(full, '\n', 0);
    assert(full[n + 1] == '\n');
    assert forall|i: int| 0 <= i < n + 1 implies full[i] != '\n' by {
        if i < n {
            assert(full[i] == line[i]);
        }
    }
    assert(index_from(full, '\n', 0) == n + 1);
    assert(full.take(n) == line);
    the_first_place_is_found(line, '\n', 0);
    assert(line.take(n) == line);
}

proof fn a_split_from(s: Seq<char>, c: char, from: int)
    requires
        0 <= from <= s.len(),
    ensures
        ({
            let parts = split_from(s, c, from);
            &&& parts.len() > 0
            &&& joined(parts, seq![c]) == s.skip(from)
            &&& forall|i: int| 0 <= i < parts.len() ==> !(#[trigger] parts[i]).contains(c)
        }),
    decreases s.len() - from,
{
    let parts = split_from(s, c, from);
    let end = index_from(s, c, from);
    the_first_place_is_found(s, c, from);
    if end < s.len() {
        let head = s.subrange(from, end);
        let rest = split_from(s, c, end + 1);
        a_split_from(s, c, end + 1);
        assert(parts == seq![head] + rest);
        joining_in_front(head, rest, seq![c]);
        assert(s.skip(from) == head + seq![c] + s.skip(end + 1));
        assert forall|i: int| 0 <= i < parts.len() implies !(#[trigger] parts[i]).contains(c) by {
            if i == 0 {
                assert forall|j: int| 0 <= j < head.len() implies head[j] != c by {
                    assert(head[j] == s[from + j]);
                }
            } else {
                assert(parts[i] == rest[i - 1]);
            }
        }
    } else {
        let head = s.skip(from);
        assert(parts == seq![head]);
        assert forall|j: int| 0 <= j < head.len() implies head[j] != c by {
            assert(head[j] == s[from + j]);
        }
    }
}

proof fn joining_in_front(head: Seq<char>, rest: Seq<Seq<char>>, sep: Seq<char>)
    requires
        rest.len() > 0,
    ensures
        joined(seq![head] + rest, sep) == head + sep + joined(rest, sep),
    decreases rest.len(),
{
    let all = seq![head] + rest;
    assert(all.drop_last() == seq![head] + rest.drop_last());
    assert(all.last() == rest.last());
    if rest.len() == 1 {
        assert(all.drop_last() == seq![head]);
        assert(joined(seq![head], sep) == head);
    } else {
        joining_in_front(head, rest.drop_last(), sep);
        assert(joined(all, sep) == joined(all.drop_last(), sep) + sep + rest.last());
        assert(joined(rest, sep) == joined(rest.drop_last(), sep) + sep + rest.last());
    }
}

/// Splitting loses nothing and leaves no separator in a part: the parts, joined by what they
/// were cut at, are the text.
pub proof fn a_split_joins_back(s: Seq<char>, c: char)
    ensures
        split_on(s, c).len() > 0,
        joined(split_on(s, c), seq![c]) == s,
        forall|i: int| 0 <= i < split_on(s, c).len() ==> !(#[trigger] split_on(s, c)[i]).contains(c),
{
    a_split_from(s, c, 0);
    assert(s.skip(0) == s);
}

proof fn a_join_without_separators(parts: Seq<Seq<char>>, c: char)
    requires
        parts.len() > 0,
        !joined(parts, seq![c]).contains(c),
    ensures
        parts.len() == 1,
{
    if parts.len() > 1 {
        let s = joined(parts, seq![c]);
        let at = joined(parts.drop_last(), seq![c]).len() as int;
        assert(s[at] == c);
    }
}

proof fn joins_of_one_text(p: Seq<Seq<char>>, q: Seq<Seq<char>>, c: char)
    requires
        p.len() > 0,
        q.len() > 0,
        joined(p, seq![c]) == joined(q, seq![c]),
        forall|i: int| 0 <= i < p.len() ==> !(#[trigger] p[i]).contains(c),
        forall|i: int| 0 <= i < q.len() ==> !(#[trigger] q[i]).contains(c),
    ensures
        p == q,
    decreases p.len(),
{
    let s = joined(p, seq![c]);
    assert(!p[0].contains(c));
    assert(!q[0].contains(c));
    if p.len() == 1 || q.len() == 1 {
        if p.len() == 1 {
            assert(s == p[0]);
        } else {
            assert(s == q[0]);
        }
        a_join_without_separators(p, c);
        a_join_without_separators(q, c);
        assert(p =~= q);
    } else {
        let (x, y) = (p.drop_first(), q.drop_first());
        assert(p =~= seq![p[0]] + x);
        assert(q =~= seq![q[0]] + y);
        joining_in_front(p[0], x, seq![c]);
        joining_in_front(q[0], y, seq![c]);
        let (n, m) = (p[0].len() as int, q[0].len() as int);
        assert(s[n] == c);
        assert(s[m] == c);
        if n < m {
            assert(q[0][n] == s[n]);
            assert(q[0].contains(c));
        }
        if m < n {
            assert(p[0][m] == s[m]);
            assert(p[0].contains(c));
        }
        assert(p[0] =~= s.take(n));
        assert(q[0] =~= s.take(n));
        assert(joined(x, seq![c]) =~= s.skip(n + 1));
        assert(joined(y, seq![c]) =~= s.skip(n + 1));
        assert forall|i: int| 0 <= i < x.len() implies !(#[trigger] x[i]).contains(c) by {
            assert(x[i] == p[i + 1]);
        }
        assert forall|i: int| 0 <= i < y.len() implies !(#[trigger] y[i]).contains(c) by {
            assert(y[i] == q[i + 1]);
        }
        joins_of_one_text(x, y, c);
        assert(p =~= q);
    }
}

/// Joining and splitting undo each other: parts that do not hold the separator are the parts of
/// what they join to.
pub proof fn a_join_splits_back(parts: Seq<Seq<char>>, c: char)
    requires
        parts.len() > 0,
        forall|i: int| 0 <= i < parts.len() ==> !(#[trigger] parts[i]).contains(c),
    ensures
        split_on(joined(parts, seq![c]), c) == parts,
{
    let s = joined(parts, seq![c]);
    a_split_joins_back(s, c);
    joins_of_one_text(split_on(s, c), parts, c);
}

/// Exactly which characters are whitespace.
pub proof fn these_characters_are_whitespace(c: char)
    ensures
        is_white_space(c) <==> ('\t' <= c <= '\r' || c == ' ' || c == '\u{85}' || c == '\u{a0}' || c
            == '\u{1680}' || '\u{2000}' <= c <= '\u{200a}' || c == '\u{2028}' || c == '\u{2029}'
            || c == '\u{202f}' || c == '\u{205f}' || c == '\u{3000}'),
{
}

/// Letters, digits and marks are no whitespace; spaces, tabs and line ends are.
pub proof fn whitespace_is_what_shows_nothing(c: char)
    ensures
        '!' <= c <= '~' ==> !is_white_space(c),
        c == ' ' || c == '\t' || c == '\n' || c == '\r' ==> is_white_space(c),
{
}

/// The characters of each string are seen, in order.
pub proof fn every_string_is_seen(parts: Seq<String>, i: int)
    requires
        0 <= i < parts.len(),
    ensures
        views(parts).len() == parts.len(),
        views(parts)[i] == parts[i]@,
{
}

/// A repeated character is that character as often as was asked, and nothing else.
pub proof fn a_repetition_is_one_character(c: char, n: nat, i: int)
    ensures
        repeated(c, n).len() == n,
        0 <= i < n ==> repeated(c, n)[i] == c,
        repeated(c, n + 1) == repeated(c, n).push(c),
{
    assert(repeated(c, n + 1) =~= repeated(c, n).push(c));
}

} // verus!

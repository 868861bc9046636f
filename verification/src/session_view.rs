//! What the main window shows about the session: the player's class line,
//! the operation timer, Parsely upload results and file names, and the name
//! suggested for a new settings profile.
use vstd::prelude::*;
#[allow(unused_imports)]
use vstd::set_lib::*;
use vstd::relations::injective_on;

use crate::text::str_eq;

verus! {

// ─────────────────────────────────────────────────────────────────────────────
// Player line
// ─────────────────────────────────────────────────────────────────────────────

/// The text of an optional string, or the empty string.
pub open spec fn text_or_empty(s: Option<String>) -> Seq<char> {
    match s {
        Some(x) => x@,
        None => Seq::empty(),
    }
}

/// The class/discipline line: "Class — Discipline" when both are known,
/// otherwise whichever is known, otherwise nothing.
pub open spec fn player_detail_of(class: Seq<char>, discipline: Seq<char>) -> Seq<char> {
    if class.len() > 0 && discipline.len() > 0 {
        class + " — "@ + discipline
    } else if class.len() > 0 {
        class
    } else {
        discipline
    }
}

/// The class/discipline line shown next to the player's name.
pub fn player_detail(class: &Option<String>, discipline: &Option<String>) -> (r: String)
    ensures
        r@ == player_detail_of(text_or_empty(*class), text_or_empty(*discipline)),
{
    let c: &str = match class {
        Some(s) => s.as_str(),
        None => "",
    };
    let d: &str = match discipline {
        Some(s) => s.as_str(),
        None => "",
    };
    proof {
        reveal_strlit("");
        assert(c@ == text_or_empty(*class));
        assert(d@ == text_or_empty(*discipline));
    }
    let has_c = c.unicode_len() > 0;
    let has_d = d.unicode_len() > 0;
    if has_c && has_d {
        let mut s = String::from_str(c);
        s.append(" — ");
        s.append(d);
        s
    } else if has_c {
        String::from_str(c)
    } else {
        String::from_str(d)
    }
}

// ─────────────────────────────────────────────────────────────────────────────
// Operation timer
// ─────────────────────────────────────────────────────────────────────────────

/// The fields the operation timer shows for `secs` elapsed seconds: hours
/// (from one hour on), minutes and seconds; without hours the minutes are
/// the whole minutes.
pub fn op_timer_fields(secs: u64) -> (r: (Option<u64>, u64, u64))
    ensures
        secs >= 3600 ==> r == (Some(secs / 3600), (secs % 3600) / 60, secs % 60),
        secs < 3600 ==> r == (None::<u64>, secs / 60, secs % 60),
{
    if secs >= 3600 {
        (Some(secs / 3600), (secs % 3600) / 60, secs % 60)
    } else {
        (None, secs / 60, secs % 60)
    }
}

/// Decimal text of `n`, padded with a leading zero to two digits.
pub open spec fn two_digits(n: nat) -> Seq<char> {
    if n < 10 {
        "0"@ + decimal(n)
    } else {
        decimal(n)
    }
}

/// The operation timer's text for `secs` elapsed seconds: "h:mm:ss" from one
/// hour on, "m:ss" below.
pub open spec fn op_timer_text_of(secs: nat) -> Seq<char> {
    if secs >= 3600 {
        decimal(secs / 3600) + ":"@ + two_digits((secs % 3600) / 60) + ":"@ + two_digits(secs % 60)
    } else {
        decimal(secs / 60) + ":"@ + two_digits(secs % 60)
    }
}

/// Append `n` padded to two digits.
fn append_two_digits(s: &mut String, n: u64)
    ensures
        final(s)@ == old(s)@ + two_digits(n as nat),
{
    let ghost before = s@;
    if n < 10 {
        s.append("0");
        proof {
            reveal_strlit("0");
        }
        append_decimal(s, n);
        assert(s@ =~= before + ("0"@ + decimal(n as nat)));
    } else {
        append_decimal(s, n);
    }
}

/// Every character of `s` is a decimal digit.
pub open spec fn all_digits(s: Seq<char>) -> bool {
    forall|i: int| 0 <= i < s.len() ==> is_digit(#[trigger] s[i])
}

/// `s` is a two-digit numeral denoting `v`.
pub open spec fn two_digit_numeral(s: Seq<char>, v: nat) -> bool {
    s.len() == 2 && all_digits(s) && numeral_value(s) == v
}

/// `s` is a numeral without leading zero denoting `v`.
pub open spec fn plain_numeral(s: Seq<char>, v: nat) -> bool {
    s.len() >= 1 && all_digits(s) && (s[0] == '0' ==> v == 0) && numeral_value(s) == v
}

/// Numbers below 100 are padded to exactly two digits.
pub proof fn lemma_two_digits_is_padded_numeral(n: nat)
    requires
        n < 100,
    ensures
        two_digit_numeral(two_digits(n), n),
{
    lemma_decimal_is_numeral(n);
    if n < 10 {
        reveal_strlit("0");
        let z = "0"@;
        let s = two_digits(n);
        assert(s == z + decimal(n));
        lemma_digit_text_is_digit_char(n);
        assert(decimal(n) == digit_text(n));
        assert(s.len() == 2);
        assert(s.drop_last() =~= z);
        assert(z.len() == 1 && z[0] == '0');
        assert(z.drop_last() =~= Seq::<char>::empty());
        assert(numeral_value(z.drop_last()) == 0);
        assert(z.last() == '0');
        assert(numeral_value(z) == 0);
        assert(s[0] == '0');
        assert(s[1] == decimal(n)[0]);
    } else {
        lemma_decimal_is_numeral(n / 10);
        lemma_digit_text_is_digit_char(n / 10);
        lemma_digit_text_is_digit_char(n % 10);
        assert(decimal(n) == decimal(n / 10) + digit_text(n % 10));
    }
}

/// The operation timer reads as minutes and zero-padded seconds below an
/// hour, and as hours, zero-padded minutes and zero-padded seconds from an
/// hour on, the fields separated by ':'.
pub proof fn lemma_op_timer_text_fields(secs: nat)
    ensures
        secs < 3600 ==> exists|m: Seq<char>, s: Seq<char>|
            op_timer_text_of(secs) == m + ":"@ + s && plain_numeral(m, secs / 60) && two_digit_numeral(s, secs % 60),
        secs >= 3600 ==> exists|h: Seq<char>, m: Seq<char>, s: Seq<char>|
            op_timer_text_of(secs) == h + ":"@ + m + ":"@ + s && plain_numeral(h, secs / 3600) && two_digit_numeral(
                m,
                (secs % 3600) / 60,
            ) && two_digit_numeral(s, secs % 60),
{
    lemma_two_digits_is_padded_numeral(secs % 60);
    if secs < 3600 {
        lemma_decimal_is_numeral(secs / 60);
        let m = decimal(secs / 60);
        let s = two_digits(secs % 60);
        assert(plain_numeral(m, secs / 60));
        assert(op_timer_text_of(secs) == m + ":"@ + s);
    } else {
        lemma_decimal_is_numeral(secs / 3600);
        lemma_two_digits_is_padded_numeral((secs % 3600) / 60);
        let h = decimal(secs / 3600);
        let m = two_digits((secs % 3600) / 60);
        let s = two_digits(secs % 60);
        assert(plain_numeral(h, secs / 3600));
        assert(op_timer_text_of(secs) == h + ":"@ + m + ":"@ + s);
    }
}

/// The operation timer's text for `secs` elapsed seconds.
pub fn op_timer_text(secs: u64) -> (r: String)
    ensures
        r@ == op_timer_text_of(secs as nat),
{
    let mut s = String::new();
    proof {
        reveal_strlit(":");
    }
    if secs >= 3600 {
        append_decimal(&mut s, secs / 3600);
        s.append(":");
        append_two_digits(&mut s, (secs % 3600) / 60);
        s.append(":");
        append_two_digits(&mut s, secs % 60);
        assert(s@ =~= decimal((secs / 3600) as nat) + ":"@ + two_digits(((secs % 3600) / 60) as nat) + ":"@
            + two_digits((secs % 60) as nat));
    } else {
        append_decimal(&mut s, secs / 60);
        s.append(":");
        append_two_digits(&mut s, secs % 60);
        assert(s@ =~= decimal((secs / 60) as nat) + ":"@ + two_digits((secs % 60) as nat));
    }
    s
}

/// Title of the operation timer's button: stop a running timer, resume a
/// paused one, start a fresh one.
pub fn op_timer_button_title(running: bool, secs: u64) -> (r: &'static str)
    ensures
        r@ == if running {
            "Stop"@
        } else if secs > 0 {
            "Resume"@
        } else {
            "Start"@
        },
{
    if running {
        "Stop"
    } else if secs > 0 {
        "Resume"
    } else {
        "Start"
    }
}

// ─────────────────────────────────────────────────────────────────────────────
// Parsely uploads
// ─────────────────────────────────────────────────────────────────────────────

/// Whether `c` occurs in `s` between indices `lo` (inclusive) and `hi`.
pub open spec fn occurs_between(s: Seq<char>, c: char, lo: int, hi: int) -> bool {
    exists|k: int| lo <= k < hi && s[k] == c
}

/// The fields of an upload result "path|success|message": the text before
/// the first '|', between the first and the second, and after the second
/// (which may hold further '|'); none when there are fewer than two '|'.
pub open spec fn upload_fields(s: Seq<char>) -> Option<(Seq<char>, Seq<char>, Seq<char>)> {
    if exists|i: int, j: int|
        0 <= i < j < s.len() && s[i] == '|' && s[j] == '|' && !occurs_between(s, '|', 0, i)
            && !occurs_between(s, '|', i + 1, j) {
        let (i, j) = choose|i: int, j: int|
            0 <= i < j < s.len() && s[i] == '|' && s[j] == '|' && !occurs_between(s, '|', 0, i)
                && !occurs_between(s, '|', i + 1, j);
        Some((s.subrange(0, i), s.subrange(i + 1, j), s.subrange(j + 1, s.len() as int)))
    } else {
        None
    }
}

/// The fields of an upload result are what lies around its first two '|':
/// joined back with '|' they give the text, and the first two fields hold no
/// '|'. There are no fields exactly when the text has fewer than two '|'.
pub proof fn lemma_upload_fields_split(s: Seq<char>)
    ensures
        upload_fields(s) matches Some((p, ok, m)) ==> {
            &&& s == p + seq!['|'] + ok + seq!['|'] + m
            &&& !p.contains('|')
            &&& !ok.contains('|')
        },
        upload_fields(s) is None <==> !(exists|i: int, j: int| 0 <= i < j < s.len() && #[trigger] s[i] == '|' && #[trigger] s[j] == '|'),
{
    if exists|i: int, j: int|
        0 <= i < j < s.len() && s[i] == '|' && s[j] == '|' && !occurs_between(s, '|', 0, i)
            && !occurs_between(s, '|', i + 1, j) {
        let (i, j) = choose|i: int, j: int|
            0 <= i < j < s.len() && s[i] == '|' && s[j] == '|' && !occurs_between(s, '|', 0, i)
                && !occurs_between(s, '|', i + 1, j);
        let p = s.subrange(0, i);
        let ok = s.subrange(i + 1, j);
        let m = s.subrange(j + 1, s.len() as int);
        assert(s =~= p + seq!['|'] + ok + seq!['|'] + m);
        if p.contains('|') {
            let k = choose|k: int| 0 <= k < p.len() && p[k] == '|';
            assert(s[k] == '|');
        }
        if ok.contains('|') {
            let k = choose|k: int| 0 <= k < ok.len() && ok[k] == '|';
            assert(s[i + 1 + k] == '|');
        }
        assert(s[j] == '|');
    } else {
        if exists|i: int, j: int| 0 <= i < j < s.len() && #[trigger] s[i] == '|' && #[trigger] s[j] == '|' {
            let (i0, j0) = choose|i: int, j: int| 0 <= i < j < s.len() && #[trigger] s[i] == '|' && #[trigger] s[j] == '|';
            // the first '|' and the next one after it are a split point
            let a = first_bar(s, 0, i0);
            let b = first_bar(s, a + 1, j0);
            assert(!occurs_between(s, '|', 0, a));
            assert(!occurs_between(s, '|', a + 1, b));
            assert(false);
        }
    }
}

/// The first '|' at or after `from`, given that there is one at `at`.
proof fn first_bar(s: Seq<char>, from: int, at: int) -> (k: int)
    requires
        0 <= from <= at < s.len(),
        s[at] == '|',
    ensures
        from <= k <= at,
        s[k] == '|',
        !occurs_between(s, '|', from, k),
    decreases at - from,
{
    if s[from] == '|' {
        from
    } else {
        let k = first_bar(s, from + 1, at);
        assert forall|q: int| from <= q < k implies s[q] != '|' by {
            if q > from {
                assert(!(from + 1 <= q < k && s[q] == '|'));
            }
        }
        k
    }
}

/// Index of the first `c` in `s` at or after `from`, or `s`'s length.
fn find_char(s: &str, c: char, from: usize) -> (r: usize)
    requires
        from <= s@.len(),
    ensures
        from <= r <= s@.len(),
        !occurs_between(s@, c, from as int, r as int),
        r < s@.len() ==> s@[r as int] == c,
{
    let n = s.unicode_len();
    let mut i = from;
    while i < n && s.get_char(i) != c
        invariant
            n == s@.len(),
            from <= i <= n,
            !occurs_between(s@, c, from as int, i as int),
        decreases n - i,
    {
        i = i + 1;
    }
    i
}

/// Parse an upload result "path|success|message" into the path, whether
/// the upload succeeded (the middle field is "true") and the message.
pub fn parse_upload_result(data: &str) -> (r: Option<(String, bool, String)>)
    ensures
        match upload_fields(data@) {
            None => r.is_none(),
            Some((p, ok, m)) => r matches Some((rp, rok, rm)) && rp@ == p && rok == (ok == "true"@) && rm@ == m,
        },
{
    let n = data.unicode_len();
    let i = find_char(data, '|', 0);
    if i >= n {
        proof {
            let s = data@;
            if exists|a: int, b: int|
                0 <= a < b < s.len() && s[a] == '|' && s[b] == '|' && !occurs_between(s, '|', 0, a)
                    && !occurs_between(s, '|', a + 1, b) {
                let (a, b) = choose|a: int, b: int|
                    0 <= a < b < s.len() && s[a] == '|' && s[b] == '|' && !occurs_between(s, '|', 0, a)
                        && !occurs_between(s, '|', a + 1, b);
                assert(occurs_between(s, '|', 0, i as int));
            }
        }
        return None;
    }
    let j = find_char(data, '|', i + 1);
    if j >= n {
        proof {
            let s = data@;
            if exists|a: int, b: int|
                0 <= a < b < s.len() && s[a] == '|' && s[b] == '|' && !occurs_between(s, '|', 0, a)
                    && !occurs_between(s, '|', a + 1, b) {
                let (a, b) = choose|a: int, b: int|
                    0 <= a < b < s.len() && s[a] == '|' && s[b] == '|' && !occurs_between(s, '|', 0, a)
                        && !occurs_between(s, '|', a + 1, b);
                if a < i {
                    assert(occurs_between(s, '|', 0, i as int));
                } else if a > i {
                    assert(occurs_between(s, '|', 0, a));
                }
                assert(occurs_between(s, '|', i + 1, j as int));
            }
        }
        return None;
    }
    proof {
        let s = data@;
        assert(0 <= i < j < s.len() && s[i as int] == '|' && s[j as int] == '|' && !occurs_between(s, '|', 0, i as int)
            && !occurs_between(s, '|', i + 1, j as int));
        let (a, b) = choose|a: int, b: int|
            0 <= a < b < s.len() && s[a] == '|' && s[b] == '|' && !occurs_between(s, '|', 0, a)
                && !occurs_between(s, '|', a + 1, b);
        if a < i {
            assert(occurs_between(s, '|', 0, i as int));
        } else if a > i {
            assert(occurs_between(s, '|', 0, a));
        }
        if b < j {
            assert(occurs_between(s, '|', i + 1, j as int));
        } else if b > j {
            assert(occurs_between(s, '|', a + 1, b));
        }
    }
    let path = String::from_str(data.substring_char(0, i));
    let flag = data.substring_char(i + 1, j);
    let message = String::from_str(data.substring_char(j + 1, n));
    Some((path, str_eq(flag, "true"), message))
}

/// The file name offered for an upload: the text after the last '/' of the
/// path (the whole path when it has none).
pub open spec fn file_name_of(s: Seq<char>) -> Seq<char>
    decreases s.len(),
{
    if s.len() == 0 {
        s
    } else if s.last() == '/' {
        Seq::empty()
    } else {
        file_name_of(s.drop_last()).push(s.last())
    }
}

/// The upload file name is the end of the path after its last '/': the path
/// is some prefix followed by the name, the name holds no '/', and the prefix
/// is empty or ends with '/'.
pub proof fn lemma_file_name_is_last_component(s: Seq<char>) -> (cut: int)
    ensures
        0 <= cut <= s.len(),
        file_name_of(s) == s.subrange(cut, s.len() as int),
        !file_name_of(s).contains('/'),
        cut > 0 ==> s[cut - 1] == '/',
    decreases s.len(),
{
    if s.len() == 0 {
        assert(s.subrange(0, 0) =~= s);
        0
    } else if s.last() == '/' {
        assert(s.subrange(s.len() as int, s.len() as int) =~= Seq::<char>::empty());
        s.len() as int
    } else {
        let t = s.drop_last();
        let c = lemma_file_name_is_last_component(t);
        assert(file_name_of(s) == file_name_of(t).push(s.last()));
        assert(t.subrange(c, t.len() as int).push(s.last()) =~= s.subrange(c, s.len() as int));
        if file_name_of(s).contains('/') {
            let k = choose|k: int| 0 <= k < file_name_of(s).len() && file_name_of(s)[k] == '/';
            if k < file_name_of(t).len() {
                assert(file_name_of(t)[k] == '/');
            }
        }
        if c > 0 {
            assert(s[c - 1] == t[c - 1]);
        }
        c
    }
}

proof fn lemma_file_name_suffix(s: Seq<char>, j: int, m: int)
    requires
        0 <= j <= m <= s.len(),
        j == 0 || s[j - 1] == '/',
        !occurs_between(s, '/', j, m),
    ensures
        file_name_of(s.take(m)) == s.subrange(j, m),
    decreases m - j,
{
    if m == j {
        if j == 0 {
            assert(s.take(0) =~= Seq::<char>::empty());
        } else {
            let t = s.take(j);
            assert(t.last() == '/');
        }
        assert(s.subrange(j, j) =~= Seq::<char>::empty());
    } else {
        lemma_file_name_suffix(s, j, m - 1);
        let t = s.take(m);
        assert(t.drop_last() =~= s.take(m - 1));
        assert(t.last() == s[m - 1]);
        assert(s[m - 1] != '/');
        assert(s.subrange(j, m) =~= s.subrange(j, m - 1).push(s[m - 1]));
    }
}

/// The file name offered when uploading the log file at `path`.
pub fn upload_file_name(path: &str) -> (r: String)
    ensures
        r@ == file_name_of(path@),
{
    let n = path.unicode_len();
    let mut j = n;
    while j > 0 && path.get_char(j - 1) != '/'
        invariant
            n == path@.len(),
            j <= n,
            !occurs_between(path@, '/', j as int, n as int),
        decreases j,
    {
        j = j - 1;
    }
    proof {
        lemma_file_name_suffix(path@, j as int, n as int);
        assert(path@.take(n as int) =~= path@);
    }
    String::from_str(path.substring_char(j, n))
}

// ─────────────────────────────────────────────────────────────────────────────
// Profile name suggestion
// ─────────────────────────────────────────────────────────────────────────────

/// Decimal digit `d` as text.
pub open spec fn digit_text(d: nat) -> Seq<char> {
    if d == 0 {
        "0"@
    } else if d == 1 {
        "1"@
    } else if d == 2 {
        "2"@
    } else if d == 3 {
        "3"@
    } else if d == 4 {
        "4"@
    } else if d == 5 {
        "5"@
    } else if d == 6 {
        "6"@
    } else if d == 7 {
        "7"@
    } else if d == 8 {
        "8"@
    } else {
        "9"@
    }
}

/// Decimal text of `n`.
pub open spec fn decimal(n: nat) -> Seq<char>
    decreases n,
{
    if n < 10 {
        digit_text(n)
    } else {
        decimal(n / 10) + digit_text(n % 10)
    }
}

/// Whether `c` is a decimal digit character.
pub open spec fn is_digit(c: char) -> bool {
    '0' as int <= c as int <= '9' as int
}

/// The number a string of decimal digits denotes, most significant first.
pub open spec fn numeral_value(s: Seq<char>) -> int
    decreases s.len(),
{
    if s.len() == 0 {
        0
    } else {
        numeral_value(s.drop_last()) * 10 + (s.last() as int - '0' as int)
    }
}

/// Digit `d` is written as the single character `'0' + d`.
pub proof fn lemma_digit_text_is_digit_char(d: nat)
    requires
        d < 10,
    ensures
        digit_text(d).len() == 1,
        digit_text(d)[0] as int == '0' as int + d,
{
    reveal_strlit("0");
    reveal_strlit("1");
    reveal_strlit("2");
    reveal_strlit("3");
    reveal_strlit("4");
    reveal_strlit("5");
    reveal_strlit("6");
    reveal_strlit("7");
    reveal_strlit("8");
    reveal_strlit("9");
}

/// `decimal(n)` is the base-10 numeral of `n`: it is made of digits only,
/// has no leading zero unless `n` is 0, and denotes `n`.
pub proof fn lemma_decimal_is_numeral(n: nat)
    ensures
        decimal(n).len() >= 1,
        forall|i: int| 0 <= i < decimal(n).len() ==> is_digit(#[trigger] decimal(n)[i]),
        decimal(n)[0] == '0' ==> n == 0,
        numeral_value(decimal(n)) == n,
    decreases n,
{
    if n < 10 {
        lemma_digit_text_is_digit_char(n);
        let s = decimal(n);
        assert(s.drop_last() =~= Seq::<char>::empty());
        assert(numeral_value(s.drop_last()) == 0);
    } else {
        lemma_decimal_is_numeral(n / 10);
        lemma_digit_text_is_digit_char(n % 10);
        let p = decimal(n / 10);
        let d = digit_text(n % 10);
        let s = decimal(n);
        assert(s == p + d);
        assert(s.drop_last() =~= p);
        assert(s.last() == d[0]);
        assert(s[0] == p[0]);
        assert forall|i: int| 0 <= i < s.len() implies is_digit(#[trigger] s[i]) by {
            if i < p.len() {
                assert(s[i] == p[i]);
            } else {
                assert(s[i] == d[0]);
            }
        }
        assert(numeral_value(s) == numeral_value(p) * 10 + (n % 10));
    }
}

/// The profile name tried as the `n`-th suggestion: "Profile n".
pub open spec fn profile_candidate(n: nat) -> Seq<char> {
    "Profile "@ + decimal(n)
}

/// Whether some listed profile has name `name`.
pub open spec fn name_taken(names: Seq<String>, name: Seq<char>) -> bool {
    exists|j: int| 0 <= j < names.len() && #[trigger] names[j]@ == name
}

proof fn lemma_digit_text(d: nat)
    requires
        d < 10,
    ensures
        digit_text(d).len() == 1,
        forall|e: nat| e < 10 && digit_text(e) == digit_text(d) ==> e == d,
{
    reveal_strlit("0");
    reveal_strlit("1");
    reveal_strlit("2");
    reveal_strlit("3");
    reveal_strlit("4");
    reveal_strlit("5");
    reveal_strlit("6");
    reveal_strlit("7");
    reveal_strlit("8");
    reveal_strlit("9");
    assert forall|e: nat| e < 10 && digit_text(e) == digit_text(d) implies e == d by {
        assert(digit_text(e)[0] == digit_text(d)[0]);
    }
}

proof fn lemma_decimal_len(n: nat)
    ensures
        decimal(n).len() >= 1,
        n >= 10 ==> decimal(n).len() >= 2,
    decreases n,
{
    if n < 10 {
        lemma_digit_text(n);
    } else {
        lemma_decimal_len(n / 10);
        lemma_digit_text(n % 10);
    }
}

/// Distinct numbers have distinct decimal texts.
proof fn lemma_decimal_injective(a: nat, b: nat)
    requires
        decimal(a) == decimal(b),
    ensures
        a == b,
    decreases a,
{
    lemma_decimal_len(a);
    lemma_decimal_len(b);
    if a < 10 && b < 10 {
        lemma_digit_text(a);
    } else if a >= 10 && b >= 10 {
        let pa = decimal(a / 10);
        let pb = decimal(b / 10);
        lemma_digit_text(a % 10);
        lemma_digit_text(b % 10);
        let da = digit_text(a % 10);
        let db = digit_text(b % 10);
        assert(decimal(a) == pa + da);
        assert(decimal(b) == pb + db);
        assert(pa.len() == pb.len());
        assert(pa =~= decimal(a).subrange(0, pa.len() as int));
        assert(pb =~= decimal(b).subrange(0, pb.len() as int));
        assert(da =~= decimal(a).subrange(pa.len() as int, decimal(a).len() as int));
        assert(db =~= decimal(b).subrange(pb.len() as int, decimal(b).len() as int));
        lemma_decimal_injective(a / 10, b / 10);
    } else if a < 10 {
        lemma_digit_text(a);
    } else {
        lemma_digit_text(b);
    }
}

/// Distinct numbers give distinct profile name suggestions.
proof fn lemma_profile_candidate_injective(a: nat, b: nat)
    requires
        profile_candidate(a) == profile_candidate(b),
    ensures
        a == b,
{
    let p = "Profile "@;
    assert(decimal(a) =~= profile_candidate(a).subrange(p.len() as int, profile_candidate(a).len() as int));
    assert(decimal(b) =~= profile_candidate(b).subrange(p.len() as int, profile_candidate(b).len() as int));
    lemma_decimal_injective(a, b);
}

/// At most as many suggestions as there are profiles can be taken: if every
/// suggestion numbered `lo` up to (not including) `hi` is a listed name,
/// there are at least `hi - lo` profiles.
proof fn lemma_taken_suggestions_bounded(names: Seq<String>, lo: nat, hi: nat)
    requires
        lo <= hi,
        forall|m: nat| lo <= m < hi ==> name_taken(names, #[trigger] profile_candidate(m)),
    ensures
        hi - lo <= names.len(),
{
    let x = set_int_range(lo as int, hi as int);
    let f = |m: int| choose|j: int| 0 <= j < names.len() && names[j]@ == profile_candidate(m as nat);
    lemma_int_range(lo as int, hi as int);
    assert forall|m: int| x.contains(m) implies 0 <= #[trigger] f(m) < names.len() && names[f(m)]@ == profile_candidate(m as nat) by {
        assert(name_taken(names, profile_candidate(m as nat)));
    }
    assert(injective_on(f, x)) by {
        assert forall|a: int, b: int| x.contains(a) && x.contains(b) && #[trigger] f(a) == #[trigger] f(b) implies a == b by {
            lemma_profile_candidate_injective(a as nat, b as nat);
        }
    }
    let y = x.map(f);
    lemma_map_size(x, y, f);
    lemma_int_range(0, names.len() as int);
    assert(y.subset_of(set_int_range(0, names.len() as int))) by {
        assert forall|j: int| y.contains(j) implies set_int_range(0, names.len() as int).contains(j) by {
            let m = choose|m: int| x.contains(m) && f(m) == j;
        }
    }
    lemma_len_subset(y, set_int_range(0, names.len() as int));
}

/// Append the decimal text of `n` to `s`.
pub(crate) fn append_decimal(s: &mut String, n: u64)
    ensures
        final(s)@ == old(s)@ + decimal(n as nat),
    decreases n,
{
    if n >= 10 {
        append_decimal(s, n / 10);
    }
    let d = n % 10;
    let ghost before = s@;
    if d == 0 {
        s.append("0");
    } else if d == 1 {
        s.append("1");
    } else if d == 2 {
        s.append("2");
    } else if d == 3 {
        s.append("3");
    } else if d == 4 {
        s.append("4");
    } else if d == 5 {
        s.append("5");
    } else if d == 6 {
        s.append("6");
    } else if d == 7 {
        s.append("7");
    } else if d == 8 {
        s.append("8");
    } else {
        s.append("9");
    }
    proof {
        if n < 10 {
            assert(n % 10 == n);
            assert(old(s)@ + decimal(n as nat) =~= before + digit_text(d as nat));
        } else {
            assert(decimal(n as nat) == decimal((n / 10) as nat) + digit_text(d as nat));
            assert(old(s)@ + decimal(n as nat) =~= before + digit_text(d as nat));
        }
    }
}

/// Whether some listed profile has the given name.
fn is_taken(names: &Vec<String>, name: &str) -> (r: bool)
    ensures
        r == name_taken(names@, name@),
{
    let n = names.len();
    let mut j: usize = 0;
    while j < n
        invariant
            n == names@.len(),
            j <= n,
            forall|k: int| 0 <= k < j ==> (#[trigger] names@[k])@ != name@,
        decreases n - j,
    {
        if str_eq(names[j].as_str(), name) {
            return true;
        }
        j = j + 1;
    }
    false
}

/// Name suggested for a new profile: "Profile n" for the first n, counting
/// from one more than the number of profiles, that no profile has.
pub fn suggested_profile_name(names: &Vec<String>) -> (r: String)
    requires
        names@.len() < usize::MAX / 2,
    ensures
        exists|n: nat|
            n >= names@.len() + 1 && r@ == profile_candidate(n) && !name_taken(names@, profile_candidate(n))
                && forall|m: nat| names@.len() + 1 <= m < n ==> name_taken(names@, #[trigger] profile_candidate(m)),
{
    let len = names.len();
    let mut n: usize = len + 1;
    loop
        invariant
            len == names@.len(),
            len < usize::MAX / 2,
            len + 1 <= n <= 2 * len + 1,
            forall|m: nat| len + 1 <= m < n ==> name_taken(names@, #[trigger] profile_candidate(m)),
        decreases 2 * len + 1 - n,
    {
        let mut candidate = String::from_str("Profile ");
        append_decimal(&mut candidate, n as u64);
        if !is_taken(names, candidate.as_str()) {
            proof {
                let w = n as nat;
                assert(candidate@ == profile_candidate(w));
                assert(w >= names@.len() + 1 && candidate@ == profile_candidate(w) && !name_taken(names@, profile_candidate(w))
                    && forall|m: nat| names@.len() + 1 <= m < w ==> name_taken(names@, #[trigger] profile_candidate(m)));
            }
            return candidate;
        }
        proof {
            assert forall|m: nat| len + 1 <= m < n + 1 implies name_taken(names@, #[trigger] profile_candidate(m)) by {
                if m == n {
                    assert(candidate@ == profile_candidate(m));
                }
            }
            lemma_taken_suggestions_bounded(names@, (len + 1) as nat, (n + 1) as nat);
        }
        n = n + 1;
    }
}

} // verus!

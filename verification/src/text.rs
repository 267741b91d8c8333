//! Text primitives shared by the event model: blank checks, the lexicographic
//! order that `String`'s `Ord` uses, and sorted sets of identifiers.
use vstd::prelude::*;
use vstd::string::*;

verus! {

/// The Unicode `White_Space` property, which is what `char::is_whitespace`
/// and therefore `str::trim` test.
pub open spec fn is_white_space(c: char) -> bool {
    let u = c as u32;
    ||| (0x09 <= u && u <= 0x0d)
    ||| u == 0x20
    ||| u == 0x85
    ||| u == 0xa0
    ||| u == 0x1680
    ||| (0x2000 <= u && u <= 0x200a)
    ||| u == 0x2028
    ||| u == 0x2029
    ||| u == 0x202f
    ||| u == 0x205f
    ||| u == 0x3000
}

/// A text is blank when trimming it leaves nothing: every character is white space.
pub open spec fn is_blank(s: Seq<char>) -> bool {
    forall|i: int| 0 <= i < s.len() ==> is_white_space(#[trigger] s[i])
}

/// A text with a character that is not white space is not blank; nor is any
/// text it starts or ends.
pub proof fn lemma_not_blank_joined(a: Seq<char>, b: Seq<char>, i: int)
    requires
        0 <= i < a.len(),
        !is_white_space(a[i]),
    ensures
        !is_blank(a),
        !is_blank(a + b),
        !is_blank(b + a),
{
    assert((a + b)[i] == a[i]);
    assert((b + a)[b.len() + i] == a[i]);
}

pub fn white_space(c: char) -> (r: bool)
    ensures
        r == is_white_space(c),
{
    let u = c as u32;
    (0x09 <= u && u <= 0x0d) || u == 0x20 || u == 0x85 || u == 0xa0 || u == 0x1680 || (0x2000
        <= u && u <= 0x200a) || u == 0x2028 || u == 0x2029 || u == 0x202f || u == 0x205f || u
        == 0x3000
}

/// `s.trim().is_empty()`.
pub fn blank(s: &str) -> (r: bool)
    ensures
        r == is_blank(s@),
{
    let n = s.unicode_len();
    let mut i: usize = 0;
    while i < n
        invariant
            n == s@.len(),
            i <= n,
            forall|j: int| 0 <= j < i ==> is_white_space(#[trigger] s@[j]),
        decreases n - i,
    {
        let c = s.get_char(i);
        if !white_space(c) {
            return false;
        }
        i = i + 1;
    }
    true
}

/// Text equality on views.
pub fn same_text(a: &str, b: &str) -> (r: bool)
    ensures
        r == (a@ == b@),
{
    let n = a.unicode_len();
    let m = b.unicode_len();
    if n != m {
        return false;
    }
    let mut i: usize = 0;
    while i < n
        invariant
            n == a@.len(),
            n == b@.len(),
            i <= n,
            forall|j: int| 0 <= j < i ==> a@[j] == b@[j],
        decreases n - i,
    {
        if a.get_char(i) != b.get_char(i) {
            return false;
        }
        i = i + 1;
    }
    assert(a@ =~= b@);
    true
}

/// `Some(a) == Some(b)` on optional texts, with the second always present.
pub fn opt_text_is(a: &Option<String>, b: &str) -> (r: bool)
    ensures
        r == (opt_view(*a) == Some(b@)),
{
    match a {
        Some(x) => same_text(x.as_str(), b),
        None => false,
    }
}

pub open spec fn opt_view(o: Option<String>) -> Option<Seq<char>> {
    match o {
        Some(s) => Some(s@),
        None => None,
    }
}

pub open spec fn strs(v: Seq<String>) -> Seq<Seq<char>> {
    v.map_values(|s: String| s@)
}

pub fn clone_opt(o: &Option<String>) -> (r: Option<String>)
    ensures
        opt_view(r) == opt_view(*o),
{
    match o {
        Some(s) => Some(s.clone()),
        None => None,
    }
}

pub fn clone_strs(v: &Vec<String>) -> (r: Vec<String>)
    ensures
        strs(r@) == strs(v@),
{
    let mut r: Vec<String> = Vec::new();
    let mut i: usize = 0;
    while i < v.len()
        invariant
            i <= v.len(),
            strs(r@) == strs(v@).take(i as int),
        decreases v.len() - i,
    {
        r.push(v[i].clone());
        assert(strs(v@).take(i as int + 1) =~= strs(v@).take(i as int).push(v@[i as int]@));
        i = i + 1;
    }
    assert(strs(v@).take(v.len() as int) =~= strs(v@));
    r
}

/// `text(s)` as an owned string.
pub fn owned(s: &str) -> (r: String)
    ensures
        r@ == s@,
{
    String::from_str(s)
}

// ---------------------------------------------------------------------------
// Lexicographic order on texts.  `String`'s `Ord` compares UTF-8 bytes, and
// UTF-8 preserves the order of code points, so this is the same order.
// ---------------------------------------------------------------------------
pub open spec fn text_lt(a: Seq<char>, b: Seq<char>) -> bool
    decreases a.len(),
{
    if b.len() == 0 {
        false
    } else if a.len() == 0 {
        true
    } else if a[0] != b[0] {
        (a[0] as int) < (b[0] as int)
    } else {
        text_lt(a.drop_first(), b.drop_first())
    }
}

pub proof fn lemma_text_lt_irreflexive(a: Seq<char>)
    ensures
        !text_lt(a, a),
    decreases a.len(),
{
    if a.len() > 0 {
        lemma_text_lt_irreflexive(a.drop_first());
    }
}

pub proof fn lemma_text_lt_transitive(a: Seq<char>, b: Seq<char>, c: Seq<char>)
    requires
        text_lt(a, b),
        text_lt(b, c),
    ensures
        text_lt(a, c),
    decreases a.len(),
{
    if a.len() > 0 && b.len() > 0 && c.len() > 0 {
        if a[0] == b[0] && b[0] == c[0] {
            lemma_text_lt_transitive(a.drop_first(), b.drop_first(), c.drop_first());
        }
    }
}

pub proof fn lemma_text_lt_total(a: Seq<char>, b: Seq<char>)
    ensures
        a == b || text_lt(a, b) || text_lt(b, a),
    decreases a.len(),
{
    if a.len() > 0 && b.len() > 0 && a[0] == b[0] {
        lemma_text_lt_total(a.drop_first(), b.drop_first());
        if a.drop_first() == b.drop_first() {
            assert(a =~= seq![a[0]] + a.drop_first());
            assert(b =~= seq![b[0]] + b.drop_first());
        }
    } else if a.len() == 0 && b.len() == 0 {
        assert(a =~= b);
    } else if a.len() > 0 && b.len() > 0 {
    }
}

pub proof fn lemma_text_lt_asymmetric(a: Seq<char>, b: Seq<char>)
    requires
        text_lt(a, b),
    ensures
        !text_lt(b, a),
{
    if text_lt(b, a) {
        lemma_text_lt_transitive(a, b, a);
        lemma_text_lt_irreflexive(a);
    }
}

/// `a < b` for strings.
pub fn text_less(a: &str, b: &str) -> (r: bool)
    ensures
        r == text_lt(a@, b@),
{
    let n = a.unicode_len();
    let m = b.unicode_len();
    let mut i: usize = 0;
    assert(a@.skip(0) =~= a@);
    assert(b@.skip(0) =~= b@);
    while i < n && i < m
        invariant
            n == a@.len(),
            m == b@.len(),
            i <= n,
            i <= m,
            text_lt(a@, b@) == text_lt(a@.skip(i as int), b@.skip(i as int)),
        decreases n - i,
    {
        let x = a.get_char(i);
        let y = b.get_char(i);
        if x != y {
            assert(a@.skip(i as int)[0] == x);
            assert(b@.skip(i as int)[0] == y);
            return (x as u32) < (y as u32);
        }
        assert(a@.skip(i as int).drop_first() =~= a@.skip(i as int + 1));
        assert(b@.skip(i as int).drop_first() =~= b@.skip(i as int + 1));
        i = i + 1;
    }
    i < m
}

// ---------------------------------------------------------------------------
// Sorted sets of texts: the iteration order of a `BTreeSet<String>`.
// ---------------------------------------------------------------------------
pub open spec fn strictly_sorted(q: Seq<Seq<char>>) -> bool {
    forall|i: int, j: int| 0 <= i < j < q.len() ==> text_lt(#[trigger] q[i], #[trigger] q[j])
}

/// The elements of a finite set of texts in increasing order.
pub open spec fn sorted_elements(s: Set<Seq<char>>) -> Seq<Seq<char>> {
    choose|q: Seq<Seq<char>>| q.to_set() == s && strictly_sorted(q)
}

proof fn lemma_sorted_first_is_least(q: Seq<Seq<char>>, x: Seq<char>)
    requires
        strictly_sorted(q),
        q.contains(x),
        q.len() > 0,
    ensures
        q[0] == x || text_lt(q[0], x),
{
    let k = choose|k: int| 0 <= k < q.len() && q[k] == x;
    if k > 0 {
        assert(text_lt(q[0], q[k]));
    }
}

pub proof fn lemma_sorted_unique(p: Seq<Seq<char>>, q: Seq<Seq<char>>)
    requires
        strictly_sorted(p),
        strictly_sorted(q),
        p.to_set() == q.to_set(),
    ensures
        p == q,
    decreases p.len(),
{
    if p.len() == 0 {
        if q.len() > 0 {
            assert(q.to_set().contains(q[0]));
            assert(!p.to_set().contains(q[0]));
        }
        assert(p =~= q);
    } else {
        assert(p.to_set().contains(p[0]));
        assert(q.to_set().contains(p[0]));
        assert(q.len() > 0);
        assert(q.to_set().contains(q[0]));
        assert(p.to_set().contains(q[0]));
        lemma_sorted_first_is_least(q, p[0]);
        lemma_sorted_first_is_least(p, q[0]);
        if p[0] != q[0] {
            lemma_text_lt_asymmetric(q[0], p[0]);
        }
        let p1 = p.drop_first();
        let q1 = q.drop_first();
        assert(strictly_sorted(p1)) by {
            assert forall|i: int, j: int| 0 <= i < j < p1.len() implies text_lt(
                #[trigger] p1[i],
                #[trigger] p1[j],
            ) by {
                assert(p1[i] == p[i + 1] && p1[j] == p[j + 1]);
            }
        }
        assert(strictly_sorted(q1)) by {
            assert forall|i: int, j: int| 0 <= i < j < q1.len() implies text_lt(
                #[trigger] q1[i],
                #[trigger] q1[j],
            ) by {
                assert(q1[i] == q[i + 1] && q1[j] == q[j + 1]);
            }
        }
        assert(p1.to_set() =~= q1.to_set()) by {
            assert forall|x: Seq<char>| p1.to_set().contains(x) implies q1.to_set().contains(x) by {
                let k = choose|k: int| 0 <= k < p1.len() && p1[k] == x;
                assert(text_lt(p[0], p[k + 1]));
                assert(q.to_set().contains(x));
                let m = choose|m: int| 0 <= m < q.len() && q[m] == x;
                if m == 0 {
                    lemma_text_lt_irreflexive(x);
                }
                assert(q1[m - 1] == x);
            }
            assert forall|x: Seq<char>| q1.to_set().contains(x) implies p1.to_set().contains(x) by {
                let k = choose|k: int| 0 <= k < q1.len() && q1[k] == x;
                assert(text_lt(q[0], q[k + 1]));
                assert(p.to_set().contains(x));
                let m = choose|m: int| 0 <= m < p.len() && p[m] == x;
                if m == 0 {
                    lemma_text_lt_irreflexive(x);
                }
                assert(p1[m - 1] == x);
            }
        }
        lemma_sorted_unique(p1, q1);
        assert(p =~= seq![p[0]] + p1);
        assert(q =~= seq![q[0]] + q1);
    }
}

/// A finite nonempty set of texts has a least element.
proof fn lemma_least_exists(s: Set<Seq<char>>) -> (m: Seq<char>)
    requires
        s.finite(),
        s.len() > 0,
    ensures
        s.contains(m),
        forall|x: Seq<char>| s.contains(x) && x != m ==> text_lt(m, x),
    decreases s.len(),
{
    let a = s.choose();
    let rest = s.remove(a);
    if rest.len() == 0 {
        assert forall|x: Seq<char>| s.contains(x) && x != a implies text_lt(a, x) by {
            assert(rest.contains(x));
        }
        a
    } else {
        let m = lemma_least_exists(rest);
        lemma_text_lt_total(a, m);
        if text_lt(a, m) {
            assert forall|x: Seq<char>| s.contains(x) && x != a implies text_lt(a, x) by {
                if x != m {
                    assert(rest.contains(x));
                    lemma_text_lt_transitive(a, m, x);
                }
            }
            a
        } else {
            assert forall|x: Seq<char>| s.contains(x) && x != m implies text_lt(m, x) by {
                if x != a {
                    assert(rest.contains(x));
                } else {
                    assert(a != m);
                }
            }
            m
        }
    }
}

/// Every finite set of texts has a sorted enumeration.
pub proof fn lemma_sorted_elements_exist(s: Set<Seq<char>>)
    requires
        s.finite(),
    ensures
        strictly_sorted(sorted_elements(s)),
        sorted_elements(s).to_set() == s,
    decreases s.len(),
{
    if s.len() == 0 {
        let q = Seq::<Seq<char>>::empty();
        assert(q.to_set() =~= s);
        assert(strictly_sorted(q));
    } else {
        let m = lemma_least_exists(s);
        let rest = s.remove(m);
        lemma_sorted_elements_exist(rest);
        let tail = sorted_elements(rest);
        let q = seq![m] + tail;
        assert forall|i: int, j: int| 0 <= i < j < q.len() implies text_lt(#[trigger] q[i], #[trigger] q[j]) by {
            if i == 0 {
                assert(q[j] == tail[j - 1]);
                assert(tail.to_set().contains(tail[j - 1]));
                assert(rest.contains(q[j]));
            } else {
                assert(q[i] == tail[i - 1]);
                assert(q[j] == tail[j - 1]);
            }
        }
        assert forall|x: Seq<char>| q.to_set().contains(x) <==> s.contains(x) by {
            if s.contains(x) {
                if x == m {
                    assert(q[0] == x);
                } else {
                    assert(rest.contains(x));
                    assert(tail.to_set().contains(x));
                    let k = choose|k: int| 0 <= k < tail.len() && tail[k] == x;
                    assert(q[k + 1] == x);
                }
            }
            if q.to_set().contains(x) {
                let k = choose|k: int| 0 <= k < q.len() && q[k] == x;
                if k > 0 {
                    assert(tail[k - 1] == x);
                    assert(tail.to_set().contains(x));
                }
            }
        }
        assert(q.to_set() =~= s);
        assert(exists|p: Seq<Seq<char>>| p.to_set() == s && strictly_sorted(p));
    }
}

/// A strictly sorted sequence is the sorted enumeration of its own elements.
pub proof fn lemma_sorted_elements_of(q: Seq<Seq<char>>)
    requires
        strictly_sorted(q),
    ensures
        sorted_elements(q.to_set()) == q,
{
    let s = q.to_set();
    assert(exists|p: Seq<Seq<char>>| p.to_set() == s && strictly_sorted(p));
    let p = sorted_elements(s);
    lemma_sorted_unique(p, q);
}

/// The sorted elements of a set hold each member of the set exactly once.
pub proof fn lemma_sorted_elements_distinct(q: Seq<Seq<char>>)
    requires
        strictly_sorted(q),
    ensures
        q.no_duplicates(),
{
    assert forall|i: int, j: int| 0 <= i < q.len() && 0 <= j < q.len() && i != j implies q[i]
        != q[j] by {
        if i < j {
            assert(text_lt(q[i], q[j]));
            lemma_text_lt_irreflexive(q[i]);
        } else {
            assert(text_lt(q[j], q[i]));
            lemma_text_lt_irreflexive(q[j]);
        }
    }
}

/// Inserts `x` into a strictly sorted vector of texts, as `BTreeSet::insert` does.
pub fn insert_sorted(v: &mut Vec<String>, x: String)
    requires
        strictly_sorted(strs(old(v)@)),
    ensures
        strictly_sorted(strs(final(v)@)),
        strs(final(v)@).to_set() == strs(old(v)@).to_set().insert(x@),
{
    let ghost old_v = strs(v@);
    let mut k: usize = 0;
    while k < v.len()
        invariant
            k <= v.len(),
            strs(v@) == old_v,
            strictly_sorted(old_v),
            forall|i: int| 0 <= i < k ==> text_lt(#[trigger] old_v[i], x@),
        ensures
            k <= v.len(),
            strs(v@) == old_v,
            forall|i: int| 0 <= i < k ==> text_lt(#[trigger] old_v[i], x@),
            k < v.len() ==> !text_lt(old_v[k as int], x@),
        decreases v.len() - k,
    {
        if !text_less(v[k].as_str(), x.as_str()) {
            break;
        }
        k = k + 1;
    }
    if k < v.len() && same_text(v[k].as_str(), x.as_str()) {
        assert(old_v[k as int] == x@);
        assert(old_v.to_set().contains(x@));
        assert(old_v.to_set().insert(x@) =~= old_v.to_set());
        return ;
    }
    proof {
        if k < v.len() {
            assert(!text_lt(old_v[k as int], x@));
            lemma_text_lt_total(old_v[k as int], x@);
        }
    }
    v.insert(k, x);
    proof {
        let nv = strs(v@);
        assert(nv =~= old_v.insert(k as int, x@));
        assert forall|i: int, j: int| 0 <= i < j < nv.len() implies text_lt(
            #[trigger] nv[i],
            #[trigger] nv[j],
        ) by {
            if j < k {
            } else if i < k && j == k {
            } else if i < k && j > k {
                assert(nv[j] == old_v[j - 1]);
                if k < old_v.len() {
                    assert(text_lt(x@, old_v[k as int]));
                    if j - 1 > k {
                        assert(text_lt(old_v[k as int], old_v[j - 1]));
                        lemma_text_lt_transitive(x@, old_v[k as int], old_v[j - 1]);
                    }
                    lemma_text_lt_transitive(nv[i], x@, nv[j]);
                }
            } else if i == k {
                assert(nv[j] == old_v[j - 1]);
                assert(text_lt(x@, old_v[k as int]));
                if j - 1 > k {
                    assert(text_lt(old_v[k as int], old_v[j - 1]));
                    lemma_text_lt_transitive(x@, old_v[k as int], old_v[j - 1]);
                }
            } else {
                assert(nv[i] == old_v[i - 1]);
                assert(nv[j] == old_v[j - 1]);
            }
        }
        assert(nv.to_set() =~= old_v.to_set().insert(x@)) by {
            assert forall|y: Seq<char>| nv.to_set().contains(y) implies old_v.to_set().insert(
                x@,
            ).contains(y) by {
                let m = choose|m: int| 0 <= m < nv.len() && nv[m] == y;
                if m < k {
                    assert(old_v[m] == y);
                } else if m > k {
                    assert(old_v[m - 1] == y);
                }
            }
            assert forall|y: Seq<char>| old_v.to_set().insert(x@).contains(y) implies nv.to_set().contains(y) by {
                if y == x@ {
                    assert(nv[k as int] == y);
                } else {
                    let m = choose|m: int| 0 <= m < old_v.len() && old_v[m] == y;
                    if m < k {
                        assert(nv[m] == y);
                    } else {
                        assert(nv[m + 1] == y);
                    }
                }
            }
        }
    }
}

/// Decimal digits of a natural number, as `Display` writes them.
pub open spec fn decimal(n: nat) -> Seq<char>
    decreases n,
{
    if n < 10 {
        seq![digit_char(n)]
    } else {
        decimal(n / 10) + seq![digit_char(n % 10)]
    }
}

pub open spec fn digit_char(d: nat) -> char {
    if d == 0 {
        '0'
    } else if d == 1 {
        '1'
    } else if d == 2 {
        '2'
    } else if d == 3 {
        '3'
    } else if d == 4 {
        '4'
    } else if d == 5 {
        '5'
    } else if d == 6 {
        '6'
    } else if d == 7 {
        '7'
    } else if d == 8 {
        '8'
    } else {
        '9'
    }
}

fn digit_text(d: usize) -> (r: &'static str)
    requires
        d < 10,
    ensures
        r@ == seq![digit_char(d as nat)],
{
    proof {
        reveal_strlit("0");
        reveal_strlit("1");
        reveal_strlit("2");
        reveal_strlit("3");
        reveal_strlit("4");
        reveal_strlit("5");
        reveal_strlit("6");
        reveal_strlit("7");
        reveal_strlit("8");
        reveal_strlit("9");
    }
    let r = if d == 0 {
        "0"
    } else if d == 1 {
        "1"
    } else if d == 2 {
        "2"
    } else if d == 3 {
        "3"
    } else if d == 4 {
        "4"
    } else if d == 5 {
        "5"
    } else if d == 6 {
        "6"
    } else if d == 7 {
        "7"
    } else if d == 8 {
        "8"
    } else {
        "9"
    };
    assert(r@ =~= seq![digit_char(d as nat)]);
    r
}

/// `n.to_string()`.
pub fn decimal_text(n: usize) -> (r: String)
    ensures
        r@ == decimal(n as nat),
    decreases n,
{
    if n < 10 {
        owned(digit_text(n))
    } else {
        let mut r = decimal_text(n / 10);
        r.append(digit_text(n % 10));
        r
    }
}

/// `n.to_string()` for a `u64`.
pub fn decimal_text_u64(n: u64) -> (r: String)
    ensures
        r@ == decimal(n as nat),
    decreases n,
{
    if n < 10 {
        owned(digit_text(n as usize))
    } else {
        let mut r = decimal_text_u64(n / 10);
        r.append(digit_text((n % 10) as usize));
        r
    }
}

/// The position of the first character that is not white space, from `from` on.
pub open spec fn first_non_space(s: Seq<char>) -> int
    decreases s.len(),
{
    if s.len() == 0 {
        0
    } else if is_white_space(s[0]) {
        1 + first_non_space(s.drop_first())
    } else {
        0
    }
}

/// The length of a text once trailing white space is dropped.
pub open spec fn end_non_space(s: Seq<char>) -> int
    decreases s.len(),
{
    if s.len() == 0 {
        0
    } else if is_white_space(s.last()) {
        end_non_space(s.drop_last())
    } else {
        s.len() as int
    }
}

/// `str::trim`: the text without leading and trailing white space.
pub open spec fn trim_text(s: Seq<char>) -> Seq<char> {
    if is_blank(s) {
        Seq::empty()
    } else {
        s.subrange(first_non_space(s), end_non_space(s))
    }
}

proof fn lemma_first_non_space(s: Seq<char>, i: int)
    requires
        0 <= i < s.len(),
        forall|k: int| 0 <= k < i ==> is_white_space(#[trigger] s[k]),
        !is_white_space(s[i]),
    ensures
        first_non_space(s) == i,
    decreases i,
{
    if i > 0 {
        assert(is_white_space(s[0]));
        assert forall|k: int| 0 <= k < i - 1 implies is_white_space(#[trigger] s.drop_first()[k]) by {
            assert(s.drop_first()[k] == s[k + 1]);
        }
        lemma_first_non_space(s.drop_first(), i - 1);
    }
}

proof fn lemma_end_non_space(s: Seq<char>, j: int)
    requires
        0 < j <= s.len(),
        forall|k: int| j <= k < s.len() ==> is_white_space(#[trigger] s[k]),
        !is_white_space(s[j - 1]),
    ensures
        end_non_space(s) == j,
    decreases s.len(),
{
    if j < s.len() {
        assert(is_white_space(s[s.len() - 1]));
        assert forall|k: int| j <= k < s.len() - 1 implies is_white_space(#[trigger] s.drop_last()[k]) by {
            assert(s.drop_last()[k] == s[k]);
        }
        lemma_end_non_space(s.drop_last(), j);
    }
}

/// `s.trim().to_string()`.
pub fn trimmed(s: &str) -> (r: String)
    ensures
        r@ == trim_text(s@),
{
    if blank(s) {
        return String::new();
    }
    let n = s.unicode_len();
    let mut i: usize = 0;
    while i < n && white_space(s.get_char(i))
        invariant
            n == s@.len(),
            i <= n,
            !is_blank(s@),
            forall|k: int| 0 <= k < i ==> is_white_space(#[trigger] s@[k]),
        decreases n - i,
    {
        i = i + 1;
    }
    if i == n {
        proof {
            assert(is_blank(s@));
        }
        return String::new();
    }
    let mut j: usize = n;
    while j > i && white_space(s.get_char(j - 1))
        invariant
            n == s@.len(),
            i < n,
            i <= j <= n,
            !is_white_space(s@[i as int]),
            forall|k: int| j <= k < n ==> is_white_space(#[trigger] s@[k]),
        decreases j,
    {
        j = j - 1;
    }
    proof {
        lemma_first_non_space(s@, i as int);
        if j == i {
            assert(false);
        }
        lemma_end_non_space(s@, j as int);
    }
    let t = s.substring_char(i, j);
    owned(t)
}

/// Concatenation of texts, with a separator between consecutive items.
pub open spec fn joined(items: Seq<Seq<char>>, sep: Seq<char>) -> Seq<char>
    decreases items.len(),
{
    if items.len() == 0 {
        Seq::empty()
    } else if items.len() == 1 {
        items[0]
    } else {
        joined(items.drop_last(), sep) + sep + items.last()
    }
}

/// `items.join(sep)`.
pub fn join_texts(items: &Vec<String>, sep: &str) -> (r: String)
    ensures
        r@ == joined(strs(items@), sep@),
{
    let mut r = String::new();
    let mut i: usize = 0;
    while i < items.len()
        invariant
            i <= items.len(),
            r@ == joined(strs(items@).take(i as int), sep@),
        decreases items.len() - i,
    {
        let ghost before = strs(items@).take(i as int);
        if i > 0 {
            r.append(sep);
        }
        r.append(items[i].as_str());
        proof {
            let after = strs(items@).take(i as int + 1);
            assert(after.drop_last() =~= before);
            if i == 0 {
                assert(r@ =~= after[0]);
            }
        }
        i = i + 1;
    }
    assert(strs(items@).take(items.len() as int) =~= strs(items@));
    r
}


// ---------------------------------------------------------------------------
// `Debug` renderings of texts.
// ---------------------------------------------------------------------------
/// What std's `Debug` writes for a string: the string in double quotes, with
/// quotes, backslashes and unprintable characters escaped.
pub uninterp spec fn debug_quoted_text(s: Seq<char>) -> Seq<char>;

/// `format!("{:?}", s)`, std's `Debug` for `str`.  The contract names the
/// result and says nothing of its characters: the escaping rules are std's.
#[verifier::external_body]
pub(crate) fn debug_quoted(s: &str) -> (r: String)
    ensures
        r@ == debug_quoted_text(s@),
{
    format!("{:?}", s)
}

/// What std's `Debug` writes for a vector of strings: `["a", "b"]`.
pub open spec fn debug_list_text(v: Seq<Seq<char>>) -> Seq<char> {
    "["@ + joined(v.map_values(|x: Seq<char>| debug_quoted_text(x)), ", "@) + "]"@
}

/// `format!("{:?}", v)` for a vector of strings, item by item.
pub fn debug_list(v: &Vec<String>) -> (r: String)
    ensures
        r@ == debug_list_text(strs(v@)),
{
    let mut items: Vec<String> = Vec::new();
    let mut k: usize = 0;
    while k < v.len()
        invariant
            k <= v.len(),
            strs(items@) == strs(v@).take(k as int).map_values(|x: Seq<char>| debug_quoted_text(x)),
        decreases v.len() - k,
    {
        let q = debug_quoted(v[k].as_str());
        let ghost before = items@;
        items.push(q);
        proof {
            assert(strs(items@) =~= strs(before).push(q@));
            assert(strs(v@).take(k as int + 1).map_values(|x: Seq<char>| debug_quoted_text(x))
                =~= strs(v@).take(k as int).map_values(|x: Seq<char>| debug_quoted_text(x)).push(
                debug_quoted_text(v@[k as int]@),
            ));
        }
        k = k + 1;
    }
    proof {
        assert(strs(v@).take(k as int) =~= strs(v@));
    }
    let inner = join_texts(&items, ", ");
    let mut r = owned("[");
    r.append(inner.as_str());
    r.append("]");
    r
}

} // verus!

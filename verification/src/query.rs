//! Verified parsing of query-string parameters. A parameter match is
//! the first occurrence of a name (ending in `=`) followed by at least
//! one acceptable character; its capture is the maximal run of
//! acceptable characters after the name. Number parameters accept a
//! nonzero first digit and decimal digits after it; text parameters
//! accept anything outside the ASCII control range.

use vstd::prelude::*;

verus! {

/// An ASCII decimal digit.
pub open spec fn spec_is_digit(c: char) -> bool {
    48 <= c as u32 && c as u32 <= 57
}

/// A nonzero ASCII decimal digit.
pub open spec fn spec_is_nonzero_digit(c: char) -> bool {
    49 <= c as u32 && c as u32 <= 57
}

/// A character acceptable in a task's text: anything outside the
/// ASCII control range. This is the documented acceptance policy for
/// text parameters.
pub open spec fn spec_is_text_char(c: char) -> bool {
    c as u32 >= 32 && c as u32 != 127
}

/// Decimal-digit test, as executable code.
pub fn is_digit(c: char) -> (r: bool)
    ensures
        r == spec_is_digit(c),
{
    let u = c as u32;
    48 <= u && u <= 57
}

/// Nonzero-digit test, as executable code.
pub fn is_nonzero_digit(c: char) -> (r: bool)
    ensures
        r == spec_is_nonzero_digit(c),
{
    let u = c as u32;
    49 <= u && u <= 57
}

/// Text-character test, as executable code.
pub fn is_text_char(c: char) -> (r: bool)
    ensures
        r == spec_is_text_char(c),
{
    let u = c as u32;
    u >= 32 && u != 127
}

/// The class predicates as single spec values, so every contract
/// speaks of one and the same function.
pub open spec fn digit_first() -> spec_fn(char) -> bool {
    |c: char| spec_is_nonzero_digit(c)
}

/// The continuation class of a number parameter.
pub open spec fn digit_cont() -> spec_fn(char) -> bool {
    |c: char| spec_is_digit(c)
}

/// The class of a text parameter, both first and continuation.
pub open spec fn text_class() -> spec_fn(char) -> bool {
    |c: char| spec_is_text_char(c)
}

/// `name` occupies positions `i ..` of `s`.
pub open spec fn spec_name_at(s: Seq<char>, name: Seq<char>, i: int) -> bool {
    0 <= i && i + name.len() <= s.len() && s.subrange(i, i + name.len() as int) == name
}

/// `name` at `i`, followed by at least one `first` character.
pub open spec fn spec_param_at(
    s: Seq<char>,
    name: Seq<char>,
    first: spec_fn(char) -> bool,
    i: int,
) -> bool {
    spec_name_at(s, name, i) && i + name.len() < s.len() && first(s[i + name.len()])
}

/// The least position where the parameter matches, if any.
pub open spec fn spec_find_param(
    s: Seq<char>,
    name: Seq<char>,
    first: spec_fn(char) -> bool,
) -> Option<int>
    decreases s.len(),
{
    if spec_param_at(s, name, first, 0) {
        Some(0)
    } else if s.len() == 0 {
        None
    } else {
        match spec_find_param(s.drop_first(), name, first) {
            None => None,
            Some(i) => Some(i + 1),
        }
    }
}

/// Dropping the first character shifts every match position by one.
proof fn lemma_param_at_shift(s: Seq<char>, name: Seq<char>, first: spec_fn(char) -> bool, j: int)
    requires
        j >= 0,
        s.len() > 0,
    ensures
        spec_param_at(s.drop_first(), name, first, j) == spec_param_at(s, name, first, j + 1),
{
    if j + name.len() + 1 <= s.len() {
        assert(s.drop_first().subrange(j, j + name.len() as int) =~= s.subrange(
            j + 1,
            j + 1 + name.len(),
        ));
        if j + name.len() + 1 < s.len() {
            assert(s.drop_first()[j + name.len()] == s[j + 1 + name.len()]);
        }
    }
}

/// `spec_find_param` returns the least match position, or `None` when
/// the parameter never matches.
pub proof fn lemma_spec_find_param(s: Seq<char>, name: Seq<char>, first: spec_fn(char) -> bool)
    ensures
        match spec_find_param(s, name, first) {
            Some(i) => spec_param_at(s, name, first, i) && (forall|j: int|
                0 <= j < i ==> !spec_param_at(s, name, first, j)),
            None => forall|j: int| !spec_param_at(s, name, first, j),
        },
    decreases s.len(),
{
    if !spec_param_at(s, name, first, 0) {
        if s.len() == 0 {
            assert forall|j: int| !spec_param_at(s, name, first, j) by {
                if j > 0 {
                    assert(!(j + name.len() <= s.len()));
                }
            }
        } else {
            lemma_spec_find_param(s.drop_first(), name, first);
            match spec_find_param(s.drop_first(), name, first) {
                None => {
                    assert forall|j: int| !spec_param_at(s, name, first, j) by {
                        if j >= 1 {
                            lemma_param_at_shift(s, name, first, j - 1);
                        }
                    }
                },
                Some(i) => {
                    lemma_param_at_shift(s, name, first, i);
                    assert forall|j: int| 0 <= j < i + 1 implies !spec_param_at(
                        s,
                        name,
                        first,
                        j,
                    ) by {
                        if j >= 1 {
                            lemma_param_at_shift(s, name, first, j - 1);
                        }
                    }
                },
            }
        }
    }
}

/// End of the run of `cont` characters from `j` on.
pub open spec fn spec_run_end(s: Seq<char>, j: int, cont: spec_fn(char) -> bool) -> int
    decreases s.len() - j,
{
    if 0 <= j < s.len() && cont(s[j]) {
        spec_run_end(s, j + 1, cont)
    } else {
        j
    }
}

/// The run reaches exactly as far as `cont` characters do.
pub proof fn lemma_spec_run_end(s: Seq<char>, j: int, cont: spec_fn(char) -> bool)
    requires
        0 <= j <= s.len(),
    ensures
        ({
            let e = spec_run_end(s, j, cont);
            j <= e <= s.len() && (forall|k: int| j <= k < e ==> cont(s[k])) && (e < s.len()
                ==> !cont(s[e]))
        }),
    decreases s.len() - j,
{
    if j < s.len() && cont(s[j]) {
        lemma_spec_run_end(s, j + 1, cont);
    }
}

/// The capture of the first parameter match: the maximal `cont` run
/// after the name. `None` when the parameter never matches.
pub open spec fn spec_capture(
    s: Seq<char>,
    name: Seq<char>,
    first: spec_fn(char) -> bool,
    cont: spec_fn(char) -> bool,
) -> Option<Seq<char>> {
    match spec_find_param(s, name, first) {
        None => None,
        Some(i) => Some(
            s.subrange(i + name.len(), spec_run_end(s, i + name.len() as int, cont)),
        ),
    }
}

/// When the first-character class lies inside the continuation class,
/// a capture is never empty and holds `cont` characters only, the
/// first from the `first` class.
pub proof fn lemma_capture_chars(
    s: Seq<char>,
    name: Seq<char>,
    first: spec_fn(char) -> bool,
    cont: spec_fn(char) -> bool,
)
    requires
        forall|c: char| #[trigger] first(c) ==> cont(c),
    ensures
        spec_capture(s, name, first, cont) matches Some(c) ==> c.len() > 0 && first(c[0]) && (
        forall|k: int| 0 <= k < c.len() ==> cont(#[trigger] c[k])),
{
    lemma_spec_find_param(s, name, first);
    match spec_find_param(s, name, first) {
        None => {
        },
        Some(i) => {
            let st = i + name.len() as int;
            lemma_spec_run_end(s, st, cont);
            let e = spec_run_end(s, st, cont);
            assert(cont(s[st]));
            assert(e > st);
        },
    }
}

/// Whether `name` occupies positions `i ..` of `s`, as executable
/// code.
pub fn name_at(s: &str, name: &str, i: usize) -> (r: bool)
    ensures
        r == spec_name_at(s@, name@, i as int),
{
    let n = s.unicode_len();
    let m = name.unicode_len();
    if i > n || m > n - i {
        return false;
    }
    let mut k: usize = 0;
    while k < m
        invariant
            n == s@.len(),
            m == name@.len(),
            i + m <= n,
            k <= m,
            forall|j: int| 0 <= j < k ==> s@[i + j] == name@[j],
        decreases m - k,
    {
        if s.get_char(i + k) != name.get_char(k) {
            proof {
                assert(s@.subrange(i as int, i + m)[k as int] == s@[i + k]);
            }
            return false;
        }
        k += 1;
    }
    proof {
        assert(s@.subrange(i as int, i + m) =~= name@);
    }
    true
}

/// The least match position of a number parameter, as executable code.
pub fn find_digit_param(s: &str, name: &str) -> (r: Option<usize>)
    ensures
        match r {
            Some(i) => spec_find_param(s@, name@, digit_first()) == Some(i as int),
            None => spec_find_param(s@, name@, digit_first()) is None,
        },
{
    let n = s.unicode_len();
    let m = name.unicode_len();
    let mut i: usize = 0;
    while i < n
        invariant
            n == s@.len(),
            m == name@.len(),
            i <= n,
            forall|j: int| 0 <= j < i ==> !spec_param_at(s@, name@, digit_first(), j),
        decreases n - i,
    {
        if name_at(s, name, i) && m < n - i && is_nonzero_digit(s.get_char(i + m)) {
            proof {
                assert(digit_first()(s@[i + m]));
                lemma_spec_find_param(s@, name@, digit_first());
                match spec_find_param(s@, name@, digit_first()) {
                    None => {
                        assert(!spec_param_at(s@, name@, digit_first(), i as int));
                    },
                    Some(k) => {
                        if k < i {
                            assert(!spec_param_at(s@, name@, digit_first(), k));
                        }
                        if k > i {
                            assert(!spec_param_at(s@, name@, digit_first(), i as int));
                        }
                    },
                }
            }
            return Some(i);
        }
        proof {
            assert(!spec_param_at(s@, name@, digit_first(), i as int));
        }
        i += 1;
    }
    proof {
        lemma_spec_find_param(s@, name@, digit_first());
        if spec_find_param(s@, name@, digit_first()) is Some {
            let k = spec_find_param(s@, name@, digit_first())->0;
            assert(!spec_param_at(s@, name@, digit_first(), k));
        }
    }
    None
}

/// The least match position of a text parameter, as executable code.
pub fn find_text_param(s: &str, name: &str) -> (r: Option<usize>)
    ensures
        match r {
            Some(i) => spec_find_param(s@, name@, text_class()) == Some(i as int),
            None => spec_find_param(s@, name@, text_class()) is None,
        },
{
    let n = s.unicode_len();
    let m = name.unicode_len();
    let mut i: usize = 0;
    while i < n
        invariant
            n == s@.len(),
            m == name@.len(),
            i <= n,
            forall|j: int| 0 <= j < i ==> !spec_param_at(s@, name@, text_class(), j),
        decreases n - i,
    {
        if name_at(s, name, i) && m < n - i && is_text_char(s.get_char(i + m)) {
            proof {
                assert(text_class()(s@[i + m]));
                lemma_spec_find_param(s@, name@, text_class());
                match spec_find_param(s@, name@, text_class()) {
                    None => {
                        assert(!spec_param_at(s@, name@, text_class(), i as int));
                    },
                    Some(k) => {
                        if k < i {
                            assert(!spec_param_at(s@, name@, text_class(), k));
                        }
                        if k > i {
                            assert(!spec_param_at(s@, name@, text_class(), i as int));
                        }
                    },
                }
            }
            return Some(i);
        }
        proof {
            assert(!spec_param_at(s@, name@, text_class(), i as int));
        }
        i += 1;
    }
    proof {
        lemma_spec_find_param(s@, name@, text_class());
        if spec_find_param(s@, name@, text_class()) is Some {
            let k = spec_find_param(s@, name@, text_class())->0;
            assert(!spec_param_at(s@, name@, text_class(), k));
        }
    }
    None
}

/// The capture of a number parameter, as executable code.
pub fn capture_digit_param(s: &str, name: &str) -> (r: Option<String>)
    ensures
        match r {
            Some(c) => spec_capture(s@, name@, digit_first(), digit_cont()) == Some(c@),
            None => spec_capture(s@, name@, digit_first(), digit_cont()) is None,
        },
{
    match find_digit_param(s, name) {
        None => None,
        Some(i) => {
            proof {
                lemma_spec_find_param(s@, name@, digit_first());
            }
            let n = s.unicode_len();
            let m = name.unicode_len();
            let st = i + m;
            let mut e: usize = st;
            while e < n && is_digit(s.get_char(e))
                invariant
                    n == s@.len(),
                    st <= e <= n,
                    forall|k: int| st <= k < e ==> digit_cont()(#[trigger] s@[k]),
                decreases n - e,
            {
                proof {
                    assert(digit_cont()(s@[e as int]));
                }
                e += 1;
            }
            proof {
                lemma_spec_run_end(s@, st as int, digit_cont());
                let se = spec_run_end(s@, st as int, digit_cont());
                if se < e {
                    assert(digit_cont()(s@[se]));
                }
                if e < se {
                    assert(digit_cont()(s@[e as int]));
                }
                assert(se == e as int);
            }
            Some(s.substring_char(st, e).to_owned())
        },
    }
}

/// The capture of a text parameter, as executable code.
pub fn capture_text_param(s: &str, name: &str) -> (r: Option<String>)
    ensures
        match r {
            Some(c) => spec_capture(s@, name@, text_class(), text_class()) == Some(c@),
            None => spec_capture(s@, name@, text_class(), text_class()) is None,
        },
{
    match find_text_param(s, name) {
        None => None,
        Some(i) => {
            proof {
                lemma_spec_find_param(s@, name@, text_class());
            }
            let n = s.unicode_len();
            let m = name.unicode_len();
            let st = i + m;
            let mut e: usize = st;
            while e < n && is_text_char(s.get_char(e))
                invariant
                    n == s@.len(),
                    st <= e <= n,
                    forall|k: int| st <= k < e ==> text_class()(#[trigger] s@[k]),
                decreases n - e,
            {
                proof {
                    assert(text_class()(s@[e as int]));
                }
                e += 1;
            }
            proof {
                lemma_spec_run_end(s@, st as int, text_class());
                let se = spec_run_end(s@, st as int, text_class());
                if se < e {
                    assert(text_class()(s@[se]));
                }
                if e < se {
                    assert(text_class()(s@[e as int]));
                }
                assert(se == e as int);
            }
            Some(s.substring_char(st, e).to_owned())
        },
    }
}

/// The number an all-digit text denotes.
pub open spec fn spec_digits_val(s: Seq<char>) -> int
    decreases s.len(),
{
    if s.len() == 0 {
        0
    } else {
        spec_digits_val(s.drop_last()) * 10 + (s.last() as u32 - 48)
    }
}

/// An all-digit text denotes a number at least zero.
pub proof fn lemma_digits_val_nonneg(s: Seq<char>)
    requires
        forall|k: int| 0 <= k < s.len() ==> spec_is_digit(#[trigger] s[k]),
    ensures
        spec_digits_val(s) >= 0,
    decreases s.len(),
{
    if s.len() > 0 {
        assert(forall|k: int| 0 <= k < s.drop_last().len() ==> s.drop_last()[k] == s[k]);
        lemma_digits_val_nonneg(s.drop_last());
        assert(spec_is_digit(s.last()));
    }
}

/// A prefix of an all-digit text denotes no more than the whole.
pub proof fn lemma_digits_val_prefix(s: Seq<char>, j: int)
    requires
        forall|k: int| 0 <= k < s.len() ==> spec_is_digit(#[trigger] s[k]),
        0 <= j <= s.len(),
    ensures
        spec_digits_val(s.take(j)) <= spec_digits_val(s),
    decreases s.len(),
{
    if j < s.len() {
        assert(forall|k: int| 0 <= k < s.drop_last().len() ==> s.drop_last()[k] == s[k]);
        assert(s.take(j) =~= s.drop_last().take(j));
        lemma_digits_val_prefix(s.drop_last(), j);
        lemma_digits_val_nonneg(s.drop_last());
        assert(spec_is_digit(s.last()));
    } else {
        assert(s.take(j) =~= s);
    }
}

/// An all-digit text with a nonzero leading digit denotes at least
/// one.
pub proof fn lemma_digits_val_leading(s: Seq<char>)
    requires
        s.len() > 0,
        forall|k: int| 0 <= k < s.len() ==> spec_is_digit(#[trigger] s[k]),
        spec_is_nonzero_digit(s[0]),
    ensures
        spec_digits_val(s) >= 1,
{
    lemma_digits_val_prefix(s, 1);
    let t = s.take(1);
    assert(t.drop_last().len() == 0);
    assert(spec_digits_val(t.drop_last()) == 0);
    assert(t.last() == s[0]);
}

/// Parses an all-digit text into a number; `None` exactly when the
/// number does not fit a `usize`.
pub fn parse_usize(s: &str) -> (r: Option<usize>)
    requires
        s@.len() > 0,
        forall|k: int| 0 <= k < s@.len() ==> spec_is_digit(#[trigger] s@[k]),
    ensures
        match r {
            Some(v) => v == spec_digits_val(s@),
            None => spec_digits_val(s@) > usize::MAX,
        },
{
    let n = s.unicode_len();
    let mut acc: usize = 0;
    let mut i: usize = 0;
    while i < n
        invariant
            n == s@.len(),
            i <= n,
            forall|k: int| 0 <= k < s@.len() ==> spec_is_digit(#[trigger] s@[k]),
            acc == spec_digits_val(s@.take(i as int)),
        decreases n - i,
    {
        let c = s.get_char(i);
        proof {
            assert(spec_is_digit(s@[i as int]));
        }
        let d = ((c as u32) - 48) as usize;
        let ghost t_next = s@.take(i + 1);
        proof {
            assert(t_next.drop_last() =~= s@.take(i as int));
            assert(t_next.last() == s@[i as int]);
        }
        match acc.checked_mul(10) {
            None => {
                proof {
                    assert(spec_digits_val(t_next) > usize::MAX);
                    lemma_digits_val_prefix(s@, i + 1);
                }
                return None;
            },
            Some(t) => {
                match t.checked_add(d) {
                    None => {
                        proof {
                            assert(spec_digits_val(t_next) > usize::MAX);
                            lemma_digits_val_prefix(s@, i + 1);
                        }
                        return None;
                    },
                    Some(a2) => {
                        acc = a2;
                    },
                }
            },
        }
        i += 1;
    }
    proof {
        assert(s@.take(n as int) =~= s@);
    }
    Some(acc)
}

} // verus!

use vstd::prelude::*;

verus! {

/// The texts of a list of strings.
pub open spec fn strings_view(w: Seq<String>) -> Seq<Seq<char>> {
    w.map_values(|x: String| x@)
}

/// The character of a decimal digit.
pub open spec fn digit_char(d: nat) -> char {
    if d == 0 {
        '0'
    } else if d == 1 {
        '1'
    } else if d == 2 {
        '2'
    } else if d == 3 {
        '3'
    } else if d == 4 {
        '4'
    } else if d == 5 {
        '5'
    } else if d == 6 {
        '6'
    } else if d == 7 {
        '7'
    } else if d == 8 {
        '8'
    } else {
        '9'
    }
}

/// The decimal notation of a number, without leading zeros.
pub open spec fn decimal(n: nat) -> Seq<char>
    decreases n,
{
    if n < 10 {
        seq![digit_char(n)]
    } else {
        decimal(n / 10).push(digit_char(n % 10))
    }
}

/// Whether `key` occurs in `text` starting at position `i`.
pub open spec fn occurs_at(text: Seq<char>, i: int, key: Seq<char>) -> bool {
    0 <= i && i + key.len() <= text.len() && text.subrange(i, i + key.len()) == key
}

fn digit_str(d: u64) -> (r: &'static str)
    requires
        d < 10,
    ensures
        r@ == seq![digit_char(d as nat)],
{
    proof {
        reveal_strlit("0");
        reveal_strlit("1");
        reveal_strlit("2");
        reveal_strlit("3");
        reveal_strlit("4");
        reveal_strlit("5");
        reveal_strlit("6");
        reveal_strlit("7");
        reveal_strlit("8");
        reveal_strlit("9");
    }
    if d == 0 {
        "0"
    } else if d == 1 {
        "1"
    } else if d == 2 {
        "2"
    } else if d == 3 {
        "3"
    } else if d == 4 {
        "4"
    } else if d == 5 {
        "5"
    } else if d == 6 {
        "6"
    } else if d == 7 {
        "7"
    } else if d == 8 {
        "8"
    } else {
        assert(seq!['9'] =~= "9"@);
        "9"
    }
}

/// Appends the decimal notation of `n` to `out`.
pub fn append_decimal(out: &mut String, n: u64)
    ensures
        final(out)@ == old(out)@ + decimal(n as nat),
    decreases n,
{
    if n < 10 {
        out.append(digit_str(n));
    } else {
        append_decimal(out, n / 10);
        out.append(digit_str(n % 10));
        assert(decimal(n as nat) == decimal((n / 10) as nat).push(digit_char((n % 10) as nat)));
        assert(final(out)@ =~= old(out)@ + decimal(n as nat));
    }
}

/// Whether `key` occurs in `text` at character position `i`.
pub fn occurs_at_exec(text: &str, len: usize, i: usize, key: &str) -> (r: bool)
    requires
        len == text@.len(),
    ensures
        r == occurs_at(text@, i as int, key@),
{
    let k = key.unicode_len();
    if i > len || k > len - i {
        return false;
    }
    let mut j: usize = 0;
    while j < k
        invariant
            j <= k,
            k == key@.len(),
            i + k <= len,
            len == text@.len(),
            forall|m: int| 0 <= m < j ==> text@[i + m] == key@[m],
        decreases k - j,
    {
        if text.get_char(i + j) != key.get_char(j) {
            assert(text@.subrange(i as int, i + k)[j as int] != key@[j as int]);
            return false;
        }
        j += 1;
    }
    assert(text@.subrange(i as int, i + k) =~= key@);
    true
}

/// The first position of `key` among `keys`, or -1.
pub open spec fn first_index(keys: Seq<Seq<char>>, key: Seq<char>) -> int
    decreases keys.len(),
{
    if keys.len() == 0 {
        -1
    } else if first_index(keys.drop_last(), key) >= 0 {
        first_index(keys.drop_last(), key)
    } else if keys.last() == key {
        keys.len() - 1
    } else {
        -1
    }
}

pub proof fn lemma_first_index_prefix(keys: Seq<Seq<char>>, key: Seq<char>, j: int)
    requires
        0 <= j <= keys.len(),
        first_index(keys.subrange(0, j), key) >= 0,
    ensures
        first_index(keys, key) == first_index(keys.subrange(0, j), key),
    decreases keys.len() - j,
{
    if j < keys.len() {
        assert(keys.subrange(0, j + 1).drop_last() =~= keys.subrange(0, j));
        lemma_first_index_prefix(keys, key, j + 1);
    } else {
        assert(keys.subrange(0, j) =~= keys);
    }
}

pub proof fn lemma_first_index_bounds(keys: Seq<Seq<char>>, key: Seq<char>)
    ensures
        -1 <= first_index(keys, key) < keys.len(),
        first_index(keys, key) >= 0 ==> keys[first_index(keys, key)] == key,
    decreases keys.len(),
{
    if keys.len() > 0 {
        lemma_first_index_bounds(keys.drop_last(), key);
    }
}

/// Whether two texts are equal.
pub fn texts_equal(a: &str, b: &str) -> (r: bool)
    ensures
        r == (a@ == b@),
{
    let n = a.unicode_len();
    if n != b.unicode_len() {
        return false;
    }
    let mut i: usize = 0;
    while i < n
        invariant
            i <= n,
            n == a@.len(),
            a@.len() == b@.len(),
            forall|j: int| 0 <= j < i ==> a@[j] == b@[j],
        decreases n - i,
    {
        if a.get_char(i) != b.get_char(i) {
            return false;
        }
        i += 1;
    }
    assert(a@ =~= b@);
    true
}

/// `dir` and `name` joined by one `/`.
pub open spec fn path_join(dir: Seq<char>, name: Seq<char>) -> Seq<char> {
    if dir.len() > 0 && dir.last() == '/' {
        dir + name
    } else {
        dir + seq!['/'] + name
    }
}

/// Joins a directory and a relative path with one `/`.
pub fn join_path(dir: &str, name: &str) -> (r: String)
    ensures
        r@ == path_join(dir@, name@),
{
    proof {
        reveal_strlit("/");
    }
    let mut out = String::from_str(dir);
    let n = dir.unicode_len();
    if !(n > 0 && dir.get_char(n - 1) == '/') {
        out.append("/");
    }
    out.append(name);
    assert(out@ =~= path_join(dir@, name@));
    out
}

} // verus!

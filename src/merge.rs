//! Merging the generated block into a file that also holds user content.
//!
//! The file is split by a fixed marker line into the text before the first
//! marker, the managed block, and the text after the second marker. Only the
//! block is ever replaced.
use vstd::prelude::*;
use vstd::string::*;

verus! {

/// The marker line that opens and closes the managed block.
pub const HOSTS_HEADER: &'static str = "# ===DOCKER HOSTS===\n";

pub open spec fn marker() -> Seq<char> {
    seq!['#', ' ', '=', '=', '=', 'D', 'O', 'C', 'K', 'E', 'R', ' ', 'H', 'O', 'S', 'T', 'S', '=', '=', '=', '\n']
}

/// `m` stands in `s` at position `i`.
pub open spec fn occurs_at(s: Seq<char>, m: Seq<char>, i: int) -> bool {
    0 <= i && i + m.len() <= s.len() && s.subrange(i, i + m.len()) == m
}

/// The first position at or after `i` where `m` stands in `s`.
pub open spec fn find_from(s: Seq<char>, m: Seq<char>, i: int) -> Option<int>
    decreases s.len() + 1 - i,
{
    if i < 0 || i + m.len() > s.len() {
        None
    } else if occurs_at(s, m, i) {
        Some(i)
    } else {
        find_from(s, m, i + 1)
    }
}

/// `s` holds no marker line.
pub open spec fn has_no_marker(s: Seq<char>) -> bool {
    forall|j: int| !#[trigger] occurs_at(s, marker(), j)
}

/// The user text before the first marker, or the whole text if there is none.
pub open spec fn managed_prefix(content: Seq<char>) -> Seq<char> {
    match find_from(content, marker(), 0) {
        Some(p) => content.subrange(0, p),
        None => content,
    }
}

/// The user text after the second marker, or nothing if there is no second one.
pub open spec fn managed_suffix(content: Seq<char>) -> Seq<char> {
    match find_from(content, marker(), 0) {
        Some(p) => match find_from(content, marker(), p + marker().len()) {
            Some(q) => content.subrange(q + marker().len(), content.len() as int),
            None => Seq::empty(),
        },
        None => Seq::empty(),
    }
}

/// The new file content: the user text kept around a fresh managed block.
pub open spec fn merged(content: Seq<char>, block: Seq<char>) -> Seq<char> {
    managed_prefix(content) + marker() + block + marker() + managed_suffix(content)
}

/// What `find_from` returns: a position of `m`, with none before it.
proof fn lemma_find_from(s: Seq<char>, m: Seq<char>, i: int)
    requires
        0 <= i,
    ensures
        match find_from(s, m, i) {
            Some(k) => i <= k && occurs_at(s, m, k) && forall|j: int|
                i <= j < k ==> !#[trigger] occurs_at(s, m, j),
            None => forall|j: int| i <= j ==> !#[trigger] occurs_at(s, m, j),
        },
    decreases s.len() + 1 - i,
{
    if i + m.len() > s.len() {
    } else if occurs_at(s, m, i) {
    } else {
        lemma_find_from(s, m, i + 1);
    }
}

/// A marker that stands in `s` at `at` is the first one from `start`, as long as
/// no marker lies wholly within `s[start..at]`: the marker's only newline is
/// its last character, so no occurrence can end inside another.
proof fn lemma_first_marker_at(s: Seq<char>, start: int, at: int)
    requires
        0 <= start <= at,
        occurs_at(s, marker(), at),
        forall|j: int| start <= j && j + marker().len() <= at ==> !#[trigger] occurs_at(s, marker(), j),
    ensures
        find_from(s, marker(), start) == Some(at),
{
    let m = marker();
    assert forall|j: int| start <= j < at implies !#[trigger] occurs_at(s, m, j) by {
        if j + m.len() > at && occurs_at(s, m, j) {
            let e = j + m.len() - 1;
            assert(s.subrange(j, j + m.len())[m.len() - 1] == s[e]);
            assert(s.subrange(at, at + m.len())[e - at] == s[e]);
            assert(m[m.len() - 1] == '\n');
            assert(0 <= e - at < m.len() - 1);
            assert(m[e - at] != '\n');
        }
    }
    lemma_find_from(s, m, start);
}

/// The regions of a file laid out as user text, marker, block, marker, user text.
proof fn lemma_regions(pre: Seq<char>, old_block: Seq<char>, suf: Seq<char>)
    requires
        has_no_marker(pre),
        has_no_marker(old_block),
    ensures
        managed_prefix(pre + marker() + old_block + marker() + suf) == pre,
        managed_suffix(pre + marker() + old_block + marker() + suf) == suf,
{
    let m = marker();
    let c = pre + m + old_block + m + suf;
    let p = pre.len() as int;
    let q = p + m.len() + old_block.len();
    assert(c.subrange(p, p + m.len()) =~= m);
    assert(c.subrange(q, q + m.len()) =~= m);
    assert forall|j: int| 0 <= j && j + m.len() <= p implies !#[trigger] occurs_at(c, m, j) by {
        assert(c.subrange(j, j + m.len()) =~= pre.subrange(j, j + m.len()));
        assert(!occurs_at(pre, m, j));
    }
    lemma_first_marker_at(c, 0, p);
    assert forall|j: int| p + m.len() <= j && j + m.len() <= q implies !#[trigger] occurs_at(c, m, j) by {
        let k = j - p - m.len();
        assert(c.subrange(j, j + m.len()) =~= old_block.subrange(k, k + m.len()));
        assert(!occurs_at(old_block, m, k));
    }
    lemma_first_marker_at(c, p + m.len(), q);
    assert(c.subrange(0, p) =~= pre);
    assert(c.subrange(q + m.len(), c.len() as int) =~= suf);
}

/// Replacing the managed block of a file keeps the user text before and
/// after it exactly as it was.
pub proof fn lemma_merge_preserves_user_text(
    pre: Seq<char>,
    old_block: Seq<char>,
    suf: Seq<char>,
    block: Seq<char>,
)
    requires
        has_no_marker(pre),
        has_no_marker(old_block),
    ensures
        merged(pre + marker() + old_block + marker() + suf, block) == pre + marker() + block
            + marker() + suf,
{
    lemma_regions(pre, old_block, suf);
}

/// The text before the first marker holds no marker.
proof fn lemma_prefix_has_no_marker(content: Seq<char>)
    ensures
        has_no_marker(managed_prefix(content)),
{
    let m = marker();
    let pre = managed_prefix(content);
    lemma_find_from(content, m, 0);
    assert forall|j: int| !#[trigger] occurs_at(pre, m, j) by {
        if occurs_at(pre, m, j) {
            assert(content.subrange(j, j + m.len()) =~= pre.subrange(j, j + m.len()));
            assert(occurs_at(content, m, j));
        }
    }
}

/// Merging the same block twice gives the same file as merging it once.
pub proof fn lemma_merge_idempotent(content: Seq<char>, block: Seq<char>)
    requires
        has_no_marker(block),
    ensures
        merged(merged(content, block), block) == merged(content, block),
{
    lemma_prefix_has_no_marker(content);
    lemma_regions(managed_prefix(content), block, managed_suffix(content));
}

/// A file that does not exist yet is read as empty, and becomes the block
/// between two markers and nothing else.
pub proof fn lemma_merge_into_empty(block: Seq<char>)
    ensures
        merged(Seq::empty(), block) == marker() + block + marker(),
{
    assert(find_from(Seq::<char>::empty(), marker(), 0) is None);
    assert(Seq::<char>::empty() + marker() + block + marker() + Seq::<char>::empty()
        =~= marker() + block + marker());
}

/// The characters of a string, one by one.
fn chars_of(s: &str) -> (r: Vec<char>)
    ensures
        r@ == s@,
{
    broadcast use vstd::string::group_string_axioms;

    let mut out: Vec<char> = Vec::new();
    for c in it: s.chars()
        invariant
            it.seq() == s@,
            out@ == it.seq().subrange(0, it.index() as int),
    {
        out.push(c);
    }
    assert(out@ =~= s@);
    out
}

/// Whether `m` stands in `text` at position `i`.
fn occurs_at_exec(text: &Vec<char>, m: &Vec<char>, i: usize) -> (r: bool)
    requires
        i + m@.len() <= text@.len(),
    ensures
        r == occurs_at(text@, m@, i as int),
{
    let n = text.len();
    let mut j: usize = 0;
    while j < m.len()
        invariant
            n == text@.len(),
            j <= m@.len(),
            i + m@.len() <= text@.len(),
            forall|k: int| 0 <= k < j ==> text@[i + k] == #[trigger] m@[k],
        decreases m@.len() - j,
    {
        if text[i + j] != m[j] {
            assert(text@.subrange(i as int, i + m@.len())[j as int] != m@[j as int]);
            return false;
        }
        j = j + 1;
    }
    assert(text@.subrange(i as int, i + m@.len()) =~= m@);
    true
}

/// The first position at or after `from` where `m` stands in `text`.
fn find_marker(text: &Vec<char>, m: &Vec<char>, from: usize) -> (r: Option<usize>)
    requires
        m@.len() > 0,
    ensures
        match r {
            Some(k) => find_from(text@, m@, from as int) == Some(k as int),
            None => find_from(text@, m@, from as int) is None,
        },
{
    let mut i: usize = from;
    while i <= text.len() && m.len() <= text.len() - i
        invariant
            from <= i,
            m@.len() > 0,
            find_from(text@, m@, from as int) == find_from(text@, m@, i as int),
        decreases text@.len() + 1 - i,
    {
        if occurs_at_exec(text, m, i) {
            return Some(i);
        }
        i = i + 1;
    }
    None
}

/// The new content of the hosts file: the user text of `existing` before the
/// first marker and after the second one, kept byte for byte, around `block`
/// framed by two markers.
pub fn merge_hosts(existing: &str, block: &str) -> (r: String)
    ensures
        r@ == merged(existing@, block@),
{
    proof {
        reveal_strlit("# ===DOCKER HOSTS===\n");
    }
    assert(HOSTS_HEADER@ =~= marker());
    let text = chars_of(existing);
    let m = chars_of(HOSTS_HEADER);
    let n = existing.unicode_len();
    let (prefix, suffix) = match find_marker(&text, &m, 0) {
        Some(p) => {
            proof {
                lemma_find_from(text@, m@, 0);
            }
            let prefix = existing.substring_char(0, p);
            match find_marker(&text, &m, p + m.len()) {
                Some(q) => {
                    proof {
                        lemma_find_from(text@, m@, p + m@.len());
                    }
                    (prefix, existing.substring_char(q + m.len(), n))
                },
                None => (prefix, ""),
            }
        },
        None => (existing, ""),
    };
    proof {
        reveal_strlit("");
    }
    String::from_str(prefix).concat(HOSTS_HEADER).concat(block).concat(HOSTS_HEADER).concat(suffix)
}

} // verus!

use vstd::prelude::*;

verus! {

/// The rows of a matrix of vectors, each row taken by its contents.
pub open spec fn rows_view<T>(x: Seq<Vec<T>>) -> Seq<Seq<T>> {
    x.map_values(|row: Vec<T>| row@)
}

/// Column `c` of a (possibly ragged) matrix: the `c`-th entry of every row
/// long enough to have one, in row order.
pub open spec fn column_of<T>(rows: Seq<Seq<T>>, c: int) -> Seq<T>
    decreases rows.len(),
{
    if rows.len() == 0 {
        Seq::empty()
    } else {
        let prefix = column_of(rows.drop_last(), c);
        if 0 <= c < rows.last().len() {
            prefix.push(rows.last()[c])
        } else {
            prefix
        }
    }
}

/// The transpose of a matrix given by rows: empty when the matrix or its first
/// row is empty, otherwise one column per entry of the first row.
pub open spec fn transposed<T>(rows: Seq<Seq<T>>) -> Seq<Seq<T>> {
    if rows.len() == 0 || rows[0].len() == 0 {
        Seq::empty()
    } else {
        Seq::new(rows[0].len(), |c: int| column_of(rows, c))
    }
}

/// Whether no row is longer than the first one (rows may be shorter).
pub open spec fn rows_fit_first<T>(rows: Seq<Seq<T>>) -> bool {
    rows.len() > 0 ==> forall|r: int| 0 <= r < rows.len() ==> #[trigger] rows[r].len() <= rows[0].len()
}

/// Transposes a matrix given by rows, moving its entries.
///
/// The width of the result is the length of the first row; a shorter row
/// contributes nothing to the columns past its end. A row longer than the
/// first one has no column to go to, so it is not accepted.
pub fn transpose<T>(x: Vec<Vec<T>>) -> (result: Vec<Vec<T>>)
    requires
        rows_fit_first(rows_view(x@)),
    ensures
        rows_view(result@) == transposed(rows_view(x@)),
{
    if x.len() == 0 || x[0].len() == 0 {
        return Vec::new();
    }
    let ghost rows0 = rows_view(x@);
    let rows = x.len();
    let cols = x[0].len();
    let mut x = x;
    let mut result: Vec<Vec<T>> = Vec::new();
    let mut c: usize = 0;
    while c < cols
        invariant
            c <= cols,
            result@.len() == c,
            forall|j: int| 0 <= j < c ==> (#[trigger] result@[j])@ == Seq::<T>::empty(),
        decreases cols - c,
    {
        result.push(Vec::with_capacity(rows));
        c += 1;
    }
    let mut r: usize = 0;
    while r < rows
        invariant
            rows == rows0.len(),
            cols == rows0[0].len(),
            rows_fit_first(rows0),
            r <= rows,
            x@.len() == rows,
            forall|j: int| r <= j < rows ==> (#[trigger] x@[j])@ == rows0[j],
            result@.len() == cols,
            forall|k: int| 0 <= k < cols ==> (#[trigger] result@[k])@ == column_of(rows0.take(r as int), k),
        decreases rows - r,
    {
        let mut row: Vec<T> = Vec::new();
        std::mem::swap(&mut row, &mut x[r]);
        assert(row@ == rows0[r as int]);
        assert(rows0[r as int].len() <= cols);
        let ghost before = result@;
        let n = row.len();
        let mut rev: Vec<T> = Vec::new();
        while row.len() > 0
            invariant
                n == rows0[r as int].len(),
                row@.len() + rev@.len() == n,
                forall|i: int| 0 <= i < row@.len() ==> row@[i] == rows0[r as int][i],
                forall|i: int| 0 <= i < rev@.len() ==> #[trigger] rev@[i] == rows0[r as int][n - 1 - i],
            decreases row@.len(),
        {
            let v = row.pop().unwrap();
            rev.push(v);
        }
        let mut col_idx: usize = 0;
        while rev.len() > 0
            invariant
                n == rows0[r as int].len(),
                n <= cols,
                col_idx + rev@.len() == n,
                forall|i: int| 0 <= i < rev@.len() ==> #[trigger] rev@[i] == rows0[r as int][n - 1 - i],
                result@.len() == cols,
                before.len() == cols,
                forall|k: int| 0 <= k < col_idx ==> (#[trigger] result@[k])@ == before[k]@.push(rows0[r as int][k]),
                forall|k: int| col_idx <= k < cols ==> (#[trigger] result@[k])@ == before[k]@,
            decreases rev@.len(),
        {
            let v = rev.pop().unwrap();
            result[col_idx].push(v);
            col_idx += 1;
        }
        proof {
            assert(rows0.take(r + 1).drop_last() =~= rows0.take(r as int));
            assert forall|k: int| 0 <= k < cols implies (#[trigger] result@[k])@ == column_of(rows0.take(r + 1), k) by {
                assert(rows0.take(r + 1).last() == rows0[r as int]);
            }
        }
        r += 1;
    }
    proof {
        assert(rows0.take(rows as int) =~= rows0);
        assert(rows_view(result@) =~= transposed(rows0));
    }
    result
}

/// The round-robin position used after the cursor `idx`: back to the first
/// node once the cursor has passed the last one.
pub open spec fn round_robin_slot(idx: usize, nodes_num: usize) -> int {
    if idx >= nodes_num { 0 } else { idx as int }
}

/// Picks the next node in round-robin order and advances the cursor.
///
/// A cursor at or past `nodes_num` wraps to the first node; the cursor is left
/// just after the node handed out.
pub fn get_node_id(idx: &mut usize, nodes_num: usize, nodes_keys: &Vec<String>) -> (key: String)
    requires
        round_robin_slot(*old(idx), nodes_num) < nodes_keys@.len(),
    ensures
        key == nodes_keys@[round_robin_slot(*old(idx), nodes_num)],
        *final(idx) == round_robin_slot(*old(idx), nodes_num) + 1,
{
    if *idx >= nodes_num {
        *idx = 0;
    }
    let key = nodes_keys[*idx].clone();
    *idx += 1;
    key
}

/// Whether `c` is a lower-case hexadecimal digit.
pub open spec fn is_lower_hex(c: char) -> bool {
    ('0' <= c && c <= '9') || ('a' <= c && c <= 'f')
}

/// Whether `s` is the text of a version-4 UUID as `Display` writes it: 36
/// characters, hyphens at positions 8, 13, 18 and 23, lower-case hexadecimal
/// digits elsewhere, the version digit `4` at position 14 and one of `8`,
/// `9`, `a`, `b` at position 19.
pub open spec fn uuid_v4_text(s: Seq<char>) -> bool {
    &&& s.len() == 36
    &&& forall|i: int|
        0 <= i < 36 ==> if i == 8 || i == 13 || i == 18 || i == 23 {
            s[i] == '-'
        } else {
            is_lower_hex(#[trigger] s[i])
        }
    &&& s[14] == '4'
    &&& (s[19] == '8' || s[19] == '9' || s[19] == 'a' || s[19] == 'b')
}

/// A fresh random identifier: calls `uuid::Uuid::new_v4()` and formats it with
/// `to_string`. `new_v4` draws the bits at random, then sets the version to 4
/// and the variant to the RFC one; `Display` writes the hyphenated lower-case
/// form. Which identifier comes out is left open: two calls may give any two
/// identifiers, equal ones included.
#[verifier::external_body]
pub(crate) fn new_uuid_string() -> (id: String)
    ensures
        uuid_v4_text(id@),
{
    uuid::Uuid::new_v4().to_string()
}

/// Copies the entries `start..end` of `x`.
pub fn copy_slice<T: Copy>(x: &Vec<T>, start: usize, end: usize) -> (v: Vec<T>)
    requires
        start <= end <= x@.len(),
    ensures
        v@ == x@.subrange(start as int, end as int),
{
    let mut v: Vec<T> = Vec::new();
    let mut i = start;
    while i < end
        invariant
            start <= i <= end <= x@.len(),
            v@ == x@.subrange(start as int, i as int),
        decreases end - i,
    {
        v.push(x[i]);
        i += 1;
        assert(v@ =~= x@.subrange(start as int, i as int));
    }
    v
}

/// Entry `c` of every row of a matrix, in row order.
pub fn copy_column<T: Copy>(m: &Vec<Vec<T>>, c: usize) -> (col: Vec<T>)
    requires
        forall|r: int| 0 <= r < m@.len() ==> c < (#[trigger] m@[r])@.len(),
    ensures
        col@ == Seq::new(m@.len(), |r: int| m@[r]@[c as int]),
{
    let mut col: Vec<T> = Vec::new();
    let mut r: usize = 0;
    while r < m.len()
        invariant
            r <= m@.len(),
            forall|q: int| 0 <= q < m@.len() ==> c < (#[trigger] m@[q])@.len(),
            col@ == Seq::new(r as nat, |q: int| m@[q]@[c as int]),
        decreases m@.len() - r,
    {
        col.push(m[r][c]);
        r += 1;
        assert(col@ =~= Seq::new(r as nat, |q: int| m@[q]@[c as int]));
    }
    col
}

/// Round-robin over `k` nodes: the cursor after `i` picks is `0` at first and
/// one past the last node handed out afterwards, and it next hands out node
/// `i % k`.
pub proof fn lemma_round_robin(i: int, k: int)
    requires
        0 <= i,
        1 <= k,
    ensures
        ({
            let cursor = if i == 0 { 0 } else { (i - 1) % k + 1 };
            &&& 0 <= cursor <= k
            &&& (if cursor >= k { 0 } else { cursor }) == i % k
        }),
{
    vstd::arithmetic::div_mod::lemma_mod_bound(i, k);
    if i > 0 {
        vstd::arithmetic::div_mod::lemma_mod_bound(i - 1, k);
        vstd::arithmetic::div_mod::lemma_add_mod_noop(i - 1, 1, k);
        if k == 1 {
            vstd::arithmetic::div_mod::lemma_mod_self_0(1);
            assert(i % 1 == 0);
        } else {
            vstd::arithmetic::div_mod::lemma_small_mod(1, k as nat);
            if (i - 1) % k + 1 < k {
                vstd::arithmetic::div_mod::lemma_small_mod(((i - 1) % k + 1) as nat, k as nat);
            } else {
                vstd::arithmetic::div_mod::lemma_mod_self_0(k);
            }
        }
    } else {
        vstd::arithmetic::div_mod::lemma_small_mod(0, k as nat);
    }
}

/// The cursor of `get_node_id` after `calls` picks over `n` nodes, from a
/// cursor at `0`.
pub open spec fn cursor_after(calls: nat, n: usize) -> usize
    decreases calls,
{
    if calls == 0 {
        0
    } else {
        (round_robin_slot(cursor_after((calls - 1) as nat, n), n) + 1) as usize
    }
}

/// Round-robin over `n` nodes from a fresh cursor: pick `i` of a run of
/// `get_node_id` calls (counting from 0) hands out node `i % n`, so every
/// `n` consecutive picks hand out each node once, in order, and the pick
/// after them starts again at the first node.
pub proof fn law_round_robin_picks(n: usize, i: nat)
    requires
        n >= 1,
    ensures
        round_robin_slot(cursor_after(i, n), n) == (i as int) % (n as int),
        cursor_after(i, n) == if i == 0 { 0 } else { (i - 1) % (n as int) + 1 },
    decreases i,
{
    lemma_round_robin(i as int, n as int);
    if i > 0 {
        law_round_robin_picks(n, (i - 1) as nat);
        lemma_round_robin(i - 1, n as int);
    }
}

} // verus!

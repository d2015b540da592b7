use vstd::prelude::*;

verus! {

/// Many messages at once, to be split among the targets of a router so that
/// each message is sent exactly once.
pub struct BulkRouterMessage<M> {
    pub data: Vec<M>,
}

impl<M> BulkRouterMessage<M> {
    pub fn new(data: Vec<M>) -> (m: Self)
        ensures
            m.data@ == data@,
    {
        Self { data }
    }
}

/// Where the `j`-th of `n` chunks of `data` starts: each chunk holds
/// `data.len() / n` consecutive messages, the last one also the rest.
pub open spec fn bulk_start(len: int, n: int, j: int) -> int {
    j * (len / n)
}

/// Where the `j`-th of `n` chunks of `data` ends.
pub open spec fn bulk_end(len: int, n: int, j: int) -> int {
    if j == n - 1 {
        len
    } else {
        (j + 1) * (len / n)
    }
}

/// The `j`-th of the `n` chunks that `data` is split into.
pub open spec fn bulk_chunk<M>(data: Seq<M>, n: int, j: int) -> Seq<M> {
    data.subrange(bulk_start(data.len() as int, n, j), bulk_end(data.len() as int, n, j))
}

/// The first `m` chunks, one after the other.
pub open spec fn bulk_chunks_joined<M>(data: Seq<M>, n: int, m: int) -> Seq<M>
    decreases m,
{
    if m <= 0 {
        Seq::empty()
    } else {
        bulk_chunks_joined(data, n, m - 1) + bulk_chunk(data, n, m - 1)
    }
}

proof fn lemma_bulk_bounds(len: int, n: int, j: int)
    requires
        n > 0,
        len >= 0,
        0 <= j < n,
    ensures
        0 <= bulk_start(len, n, j) <= bulk_end(len, n, j) <= len,
        j + 1 < n ==> bulk_end(len, n, j) == bulk_start(len, n, j + 1),
{
    let per = len / n;
    assert(0 <= per) by (nonlinear_arith) requires len >= 0, n > 0, per == len / n;
    assert(per * n <= len) by (nonlinear_arith) requires per == len / n, n > 0, len >= 0;
    assert(j * per <= (j + 1) * per) by (nonlinear_arith) requires per >= 0, j >= 0;
    assert((j + 1) * per <= n * per) by (nonlinear_arith) requires per >= 0, j + 1 <= n;
    assert(n * per == per * n) by (nonlinear_arith);
}

/// Splitting a bulk message loses and repeats nothing: its `n` chunks, one
/// after the other, are the messages.
pub proof fn lemma_bulk_chunks_partition<M>(data: Seq<M>, n: int)
    requires
        n > 0,
    ensures
        bulk_chunks_joined(data, n, n) == data,
{
    lemma_bulk_chunks_prefix(data, n, n);
    assert(data.subrange(0, data.len() as int) =~= data);
}

proof fn lemma_bulk_chunks_prefix<M>(data: Seq<M>, n: int, m: int)
    requires
        n > 0,
        0 < m <= n,
    ensures
        bulk_chunks_joined(data, n, m) == data.subrange(0, bulk_end(data.len() as int, n, m - 1)),
    decreases m,
{
    let len = data.len() as int;
    lemma_bulk_bounds(len, n, m - 1);
    if m == 1 {
        assert(bulk_start(len, n, 0) == 0);
        assert(bulk_chunks_joined(data, n, 0) =~= Seq::<M>::empty());
        assert(bulk_chunks_joined(data, n, 1) =~= data.subrange(0, bulk_end(len, n, 0)));
    } else {
        lemma_bulk_chunks_prefix(data, n, m - 1);
        lemma_bulk_bounds(len, n, m - 2);
        assert(data.subrange(0, bulk_end(len, n, m - 2)) + bulk_chunk(data, n, m - 1)
            =~= data.subrange(0, bulk_end(len, n, m - 1)));
    }
}

/// Splits `data` into its `n` chunks, as [`bulk_chunk`] says.
pub fn split_bulk<M>(data: Vec<M>, n: usize) -> (chunks: Vec<Vec<M>>)
    requires
        n > 0,
    ensures
        chunks@.len() == n,
        forall|j: int| 0 <= j < n ==> (#[trigger] chunks@[j])@ == bulk_chunk(data@, n as int, j),
{
    let ghost orig = data@;
    let total = data.len();
    let per = total / n;
    let mut rest = data;
    let mut chunks: Vec<Vec<M>> = Vec::new();
    let mut j: usize = 0;
    while j < n
        invariant
            n > 0,
            per == total / n,
            total == orig.len(),
            j <= n,
            chunks@.len() == j,
            j < n ==> rest@ == orig.subrange(bulk_start(total as int, n as int, j as int), total as int),
            forall|k: int| 0 <= k < j ==> (#[trigger] chunks@[k])@ == bulk_chunk(orig, n as int, k),
        decreases n - j,
    {
        proof {
            lemma_bulk_bounds(total as int, n as int, j as int);
        }
        if j + 1 == n {
            let last = rest;
            rest = Vec::new();
            chunks.push(last);
        } else {
            proof {
                assert(per == bulk_end(total as int, n as int, j as int) - bulk_start(total as int, n as int, j as int))
                    by (nonlinear_arith)
                    requires per == total / n, j + 1 < n;
            }
            let tail = rest.split_off(per);
            let chunk = rest;
            rest = tail;
            chunks.push(chunk);
            proof {
                assert(rest@ =~= orig.subrange(bulk_start(total as int, n as int, j + 1), total as int));
            }
        }
        proof {
            assert(chunks@[j as int]@ =~= bulk_chunk(orig, n as int, j as int));
        }
        j = j + 1;
    }
    chunks
}

} // verus!

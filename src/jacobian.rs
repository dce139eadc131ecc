use vstd::prelude::*;

verus! {

/// Every row of `rows` holds `n` entries.
pub open spec fn rectangular<T>(rows: Seq<Vec<T>>, n: nat) -> bool {
    forall|b: int| 0 <= b < rows.len() ==> (#[trigger] rows[b])@.len() == n
}

/// `t` holds one `n` by `n` matrix per sample of a batch of `batch` samples.
pub open spec fn cube<T>(t: Seq<Vec<Vec<T>>>, batch: nat, n: nat) -> bool {
    &&& t.len() == batch
    &&& forall|b: int| 0 <= b < batch ==> (#[trigger] t[b])@.len() == n
    &&& forall|b: int, i: int|
        0 <= b < batch && 0 <= i < n ==> (#[trigger] t[b]@[i])@.len() == n
}

/// The entry of a per-sample Jacobian tensor: row `i`, column `j` of sample `b`.
pub open spec fn entry<T>(t: Seq<Vec<Vec<T>>>, b: int, i: int, j: int) -> T {
    t[b]@[i]@[j]
}

/// Builds one diagonal matrix per sample: sample `b` of the result holds the
/// entries of `diags[b]` on its diagonal and `zero` everywhere else.
///
/// This is the Jacobian layout of an activation that acts entry by entry.
pub fn array3_from_diags<T: Copy>(diags: &Vec<Vec<T>>, dim: usize, zero: T) -> (r: Vec<Vec<Vec<T>>>)
    requires
        rectangular(diags@, dim as nat),
    ensures
        cube(r@, diags@.len(), dim as nat),
        forall|b: int, i: int, j: int|
            0 <= b < diags@.len() && 0 <= i < dim && 0 <= j < dim ==> #[trigger] entry(r@, b, i, j)
                == if i == j {
                diags@[b]@[i]
            } else {
                zero
            },
{
    let mut r: Vec<Vec<Vec<T>>> = Vec::new();
    let mut b: usize = 0;
    while b < diags.len()
        invariant
            b <= diags@.len(),
            rectangular(diags@, dim as nat),
            cube(r@, b as nat, dim as nat),
            forall|bb: int, i: int, j: int|
                0 <= bb < b && 0 <= i < dim && 0 <= j < dim ==> #[trigger] entry(r@, bb, i, j)
                    == if i == j {
                    diags@[bb]@[i]
                } else {
                    zero
                },
        decreases diags@.len() - b,
    {
        let row = &diags[b];
        let mut m: Vec<Vec<T>> = Vec::new();
        let mut i: usize = 0;
        while i < dim
            invariant
                i <= dim,
                row@.len() == dim,
                m@.len() == i,
                forall|ii: int| 0 <= ii < i ==> (#[trigger] m@[ii])@.len() == dim,
                forall|ii: int, j: int|
                    0 <= ii < i && 0 <= j < dim ==> #[trigger] m@[ii]@[j] == if ii == j {
                        row@[ii]
                    } else {
                        zero
                    },
            decreases dim - i,
        {
            let mut line: Vec<T> = Vec::new();
            let mut j: usize = 0;
            while j < dim
                invariant
                    j <= dim,
                    i < dim,
                    row@.len() == dim,
                    line@.len() == j,
                    forall|jj: int| 0 <= jj < j ==> #[trigger] line@[jj] == if i == jj {
                        row@[i as int]
                    } else {
                        zero
                    },
                decreases dim - j,
            {
                if i == j {
                    line.push(row[i]);
                } else {
                    line.push(zero);
                }
                j = j + 1;
            }
            m.push(line);
            i = i + 1;
        }
        let ghost prev = r@;
        r.push(m);
        proof {
            assert forall|bb: int, i: int, j: int|
                0 <= bb <= b && 0 <= i < dim && 0 <= j < dim implies #[trigger] entry(r@, bb, i, j)
                    == if i == j {
                    diags@[bb]@[i]
                } else {
                    zero
                } by {
                if bb < b {
                    assert(r@[bb] == prev[bb]);
                    assert(entry(prev, bb, i, j) == entry(r@, bb, i, j));
                }
            }
        }
        b = b + 1;
    }
    r
}

/// Builds one dense matrix per sample from pairs of that sample's entries:
/// row `i`, column `j` of sample `b` is what `f` gives for
/// `(s[b][i], s[b][j], i == j)`.
///
/// This is the Jacobian layout of an activation that couples the entries of a
/// sample, such as softmax, whose entry is `s_i - s_i * s_j` on the diagonal
/// and `-s_i * s_j` off it.
pub fn array3_from_pairs<T: Copy, F: Fn(T, T, bool) -> T>(s: &Vec<Vec<T>>, dim: usize, f: F) -> (r: Vec<Vec<Vec<T>>>)
    requires
        rectangular(s@, dim as nat),
        forall|x: T, y: T, d: bool| #[trigger] f.requires((x, y, d)),
    ensures
        cube(r@, s@.len(), dim as nat),
        forall|b: int, i: int, j: int|
            0 <= b < s@.len() && 0 <= i < dim && 0 <= j < dim ==> f.ensures(
                (s@[b]@[i], s@[b]@[j], i == j),
                #[trigger] entry(r@, b, i, j),
            ),
{
    let mut r: Vec<Vec<Vec<T>>> = Vec::new();
    let mut b: usize = 0;
    while b < s.len()
        invariant
            b <= s@.len(),
            rectangular(s@, dim as nat),
            forall|x: T, y: T, d: bool| #[trigger] f.requires((x, y, d)),
            cube(r@, b as nat, dim as nat),
            forall|bb: int, i: int, j: int|
                0 <= bb < b && 0 <= i < dim && 0 <= j < dim ==> f.ensures(
                    (s@[bb]@[i], s@[bb]@[j], i == j),
                    #[trigger] entry(r@, bb, i, j),
                ),
        decreases s@.len() - b,
    {
        let row = &s[b];
        let mut m: Vec<Vec<T>> = Vec::new();
        let mut i: usize = 0;
        while i < dim
            invariant
                i <= dim,
                row@.len() == dim,
                forall|x: T, y: T, d: bool| #[trigger] f.requires((x, y, d)),
                m@.len() == i,
                forall|ii: int| 0 <= ii < i ==> (#[trigger] m@[ii])@.len() == dim,
                forall|ii: int, j: int|
                    0 <= ii < i && 0 <= j < dim ==> f.ensures(
                        (row@[ii], row@[j], ii == j),
                        #[trigger] m@[ii]@[j],
                    ),
            decreases dim - i,
        {
            let mut line: Vec<T> = Vec::new();
            let mut j: usize = 0;
            while j < dim
                invariant
                    j <= dim,
                    i < dim,
                    row@.len() == dim,
                    forall|x: T, y: T, d: bool| #[trigger] f.requires((x, y, d)),
                    line@.len() == j,
                    forall|jj: int| 0 <= jj < j ==> f.ensures(
                        (row@[i as int], row@[jj], i == jj),
                        #[trigger] line@[jj],
                    ),
                decreases dim - j,
            {
                let v = f(row[i], row[j], i == j);
                line.push(v);
                j = j + 1;
            }
            m.push(line);
            i = i + 1;
        }
        let ghost prev = r@;
        r.push(m);
        proof {
            assert forall|bb: int, i: int, j: int|
                0 <= bb <= b && 0 <= i < dim && 0 <= j < dim implies f.ensures(
                    (s@[bb]@[i], s@[bb]@[j], i == j),
                    #[trigger] entry(r@, bb, i, j),
                ) by {
                if bb < b {
                    assert(r@[bb] == prev[bb]);
                    assert(entry(prev, bb, i, j) == entry(r@, bb, i, j));
                }
            }
        }
        b = b + 1;
    }
    r
}

/// Applies `f` to every entry of a batch of samples.
pub fn map_entries<T: Copy, F: Fn(T) -> T>(rows: &Vec<Vec<T>>, dim: usize, f: F) -> (r: Vec<Vec<T>>)
    requires
        rectangular(rows@, dim as nat),
        forall|x: T| #[trigger] f.requires((x,)),
    ensures
        r@.len() == rows@.len(),
        rectangular(r@, dim as nat),
        forall|b: int, i: int|
            0 <= b < rows@.len() && 0 <= i < dim ==> f.ensures((rows@[b]@[i],), #[trigger] r@[b]@[i]),
{
    let mut r: Vec<Vec<T>> = Vec::new();
    let mut b: usize = 0;
    while b < rows.len()
        invariant
            b <= rows@.len(),
            rectangular(rows@, dim as nat),
            forall|x: T| #[trigger] f.requires((x,)),
            r@.len() == b,
            rectangular(r@, dim as nat),
            forall|bb: int, i: int|
                0 <= bb < b && 0 <= i < dim ==> f.ensures((rows@[bb]@[i],), #[trigger] r@[bb]@[i]),
        decreases rows@.len() - b,
    {
        let row = &rows[b];
        let mut out: Vec<T> = Vec::new();
        let mut i: usize = 0;
        while i < dim
            invariant
                i <= dim,
                row@.len() == dim,
                forall|x: T| #[trigger] f.requires((x,)),
                out@.len() == i,
                forall|ii: int| 0 <= ii < i ==> f.ensures((row@[ii],), #[trigger] out@[ii]),
            decreases dim - i,
        {
            out.push(f(row[i]));
            i = i + 1;
        }
        r.push(out);
        b = b + 1;
    }
    r
}

} // verus!

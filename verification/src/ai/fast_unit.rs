use vstd::prelude::*;

verus! {

/// The number of unit rows (and columns) on a ground `width` tiles wide:
/// one every 50 tiles from tile 10, short of the last 10 tiles.
pub open spec fn spawn_count(width: int) -> int {
    if width - 10 <= 10 {
        0
    } else {
        (width - 20 + 49) / 50
    }
}

/// The tiles on which units start: `(x, z)` for `x` and `z` in
/// `10, 60, 110, ...` below `width - 10`, by column then row.
pub fn spawn_cells(width: u32) -> (r: Vec<(u32, u32)>)
    requires
        width >= 10,
    ensures
        r@.len() == spawn_count(width as int) * spawn_count(width as int),
        forall|i: int, j: int|
            0 <= i < spawn_count(width as int) && 0 <= j < spawn_count(width as int) ==> #[trigger] r@[i
                * spawn_count(width as int) + j] == (
                (10 + 50 * i) as u32,
                (10 + 50 * j) as u32,
            ),
{
    let ghost n = spawn_count(width as int);
    let end = (width - 10) as u64;
    let mut cells: Vec<(u32, u32)> = Vec::new();
    let mut x: u64 = 10;
    let ghost mut i: int = 0;
    proof {
        assert(n >= 0);
        if n > 0 {
            assert(10 + 50 * (n - 1) < end) by (nonlinear_arith)
                requires
                    n == (width - 20 + 49) / 50,
                    width - 10 > 10,
                    end == width - 10,
            ;
        }
        assert(10 + 50 * n >= end) by (nonlinear_arith)
            requires
                n == (if width - 10 <= 10 { 0 } else { (width - 20 + 49) / 50 }),
                end == width - 10,
        ;
    }
    while x < end
        invariant
            end == width - 10,
            n == spawn_count(width as int),
            10 + 50 * (n - 1) < end || n == 0,
            10 + 50 * n >= end,
            0 <= i <= n,
            x == 10 + 50 * i,
            x <= end + 50,
            cells@.len() == i * n,
            forall|a: int, b: int| 0 <= a < i && 0 <= b < n ==> #[trigger] cells@[a * n + b] == (
                (10 + 50 * a) as u32,
                (10 + 50 * b) as u32,
            ),
        decreases end + 50 - x,
    {
        proof {
            if i >= n {
                assert(x >= end);
            }
        }
        let mut z: u64 = 10;
        let ghost mut j: int = 0;
        let ghost before = cells@;
        while z < end
            invariant
                end == width - 10,
                n == spawn_count(width as int),
                10 + 50 * (n - 1) < end || n == 0,
                10 + 50 * n >= end,
                0 <= i < n,
                x == 10 + 50 * i,
                x < end,
                0 <= j <= n,
                z == 10 + 50 * j,
                z <= end + 50,
                before.len() == i * n,
                cells@.len() == i * n + j,
                cells@.subrange(0, i * n) == before,
                forall|b: int| 0 <= b < j ==> #[trigger] cells@[i * n + b] == ((10 + 50 * i) as u32, (10 + 50 * b) as u32),
            decreases end + 50 - z,
        {
            proof {
                if j >= n {
                    assert(z >= end);
                }
            }
            cells.push((x as u32, z as u32));
            proof {
                assert(cells@.subrange(0, i * n) =~= before);
                j = j + 1;
            }
            z = z + 50;
        }
        proof {
            assert(j == n);
            assert forall|a: int, b: int| 0 <= a < i + 1 && 0 <= b < n implies #[trigger] cells@[a * n + b] == (
                (10 + 50 * a) as u32,
                (10 + 50 * b) as u32,
            ) by {
                if a < i {
                    assert(a * n + b < i * n) by (nonlinear_arith)
                        requires
                            a < i,
                            0 <= b < n,
                    ;
                    assert(cells@[a * n + b] == before[a * n + b]);
                }
            }
            assert(cells@.len() == (i + 1) * n) by (nonlinear_arith)
                requires
                    cells@.len() == i * n + n,
            ;
            i = i + 1;
        }
        x = x + 50;
    }
    proof {
        if i < n {
            assert(x < end);
        }
    }
    cells
}

} // verus!

use vstd::prelude::*;

verus! {

/// Index of the nearest hit among per-element intersection results:
/// the smallest key wins, and the earliest index wins a tie.
///
/// A key is an order-preserving `u64` encoding of an element's hit
/// distance (IEEE-754 bit patterns of finite, non-negative doubles
/// compare like the numbers); `None` is a miss. `None` comes back
/// exactly when every element missed.
pub fn nearest_hit(keys: &Vec<Option<u64>>) -> (r: Option<usize>)
    ensures
        match r {
            Some(i) => {
                &&& i < keys@.len()
                &&& keys@[i as int] is Some
                &&& forall|j: int|
                    0 <= j < keys@.len() && keys@[j] is Some ==> keys@[i as int]->0 <= keys@[j]->0
                &&& forall|j: int|
                    0 <= j < i ==> (keys@[j] is None || keys@[j]->0 > keys@[i as int]->0)
            },
            None => forall|j: int| 0 <= j < keys@.len() ==> keys@[j] is None,
        },
{
    let n: usize = keys.len();
    let mut best: Option<(usize, u64)> = None;
    let mut i: usize = 0;
    while i < n
        invariant
            n == keys@.len(),
            i <= n,
            match best {
                Some(p) => {
                    &&& (p.0 as int) < i
                    &&& keys@[p.0 as int] is Some
                    &&& keys@[p.0 as int]->0 == p.1
                    &&& forall|j: int| 0 <= j < i && keys@[j] is Some ==> p.1 <= keys@[j]->0
                    &&& forall|j: int| 0 <= j < p.0 ==> (keys@[j] is None || keys@[j]->0 > p.1)
                },
                None => forall|j: int| 0 <= j < i ==> keys@[j] is None,
            },
        decreases n - i,
    {
        match keys[i] {
            Some(d) => {
                match best {
                    Some(p) => {
                        if d < p.1 {
                            best = Some((i, d));
                        }
                    },
                    None => {
                        best = Some((i, d));
                    },
                }
            },
            None => {},
        }
        i = i + 1;
    }
    match best {
        Some(p) => Some(p.0),
        None => None,
    }
}

} // verus!

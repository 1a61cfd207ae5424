//! Driver descriptions and the table of init entries that registers them.

use vstd::prelude::*;

verus! {

/// A kind of module that is registered through an entry of type `Entry`.
pub trait Module {
    type Entry;
}

/// The type itself; lets a registration name a type where a path is expected.
pub type Identity<T> = T;

/// Counts one registered entry, whatever it is.
pub fn one<T>(_entry: &T) -> (n: usize)
    ensures
        n == 1,
{
    1
}

/// What a driver reports of itself: its name and the device it is compatible with.
pub struct Driver<'a> {
    pub name: &'a str,
    pub compatible: &'a str,
}

impl<'a> Driver<'a> {
    /// The description of the driver `name`, compatible with `compatible`.
    pub fn info(name: &'a str, compatible: &'a str) -> (d: Driver<'a>)
        ensures
            d.name == name,
            d.compatible == compatible,
    {
        Driver { name, compatible }
    }
}

/// One registered driver: the function that describes it.
pub struct CallEntry<F> {
    pub init_fn: F,
}

/// Calls the init function of each entry, in table order, and gives back what each
/// reports.
pub fn traverse_drivers<F: Fn() -> Driver<'static>>(entries: &[CallEntry<F>]) -> (found: Vec<
    Driver<'static>,
>)
    requires
        forall|i: int| 0 <= i < entries@.len() ==> call_requires(entries@[i].init_fn, ()),
    ensures
        found@.len() == entries@.len(),
        forall|i: int|
            0 <= i < entries@.len() ==> call_ensures(entries@[i].init_fn, (), #[trigger] found@[i]),
{
    let mut found: Vec<Driver<'static>> = Vec::new();
    let mut k: usize = 0;
    while k < entries.len()
        invariant
            k <= entries@.len(),
            found@.len() == k,
            forall|i: int| 0 <= i < entries@.len() ==> call_requires(entries@[i].init_fn, ()),
            forall|i: int| 0 <= i < k ==> call_ensures(entries@[i].init_fn, (), #[trigger] found@[i]),
        decreases entries@.len() - k,
    {
        let d = (entries[k].init_fn)();
        found.push(d);
        k = k + 1;
    }
    found
}

/// The number of entries of `entry_size` bytes in the table that starts at address
/// `start` and ends at address `end`.
pub fn initcalls_len(start: usize, end: usize, entry_size: usize) -> (n: usize)
    requires
        start <= end,
        entry_size > 0,
        (end - start) % (entry_size as int) == 0,
    ensures
        n * entry_size == end - start,
{
    let n = (end - start) / entry_size;
    proof {
        let len = (end - start) as int;
        vstd::arithmetic::div_mod::lemma_fundamental_div_mod(len, entry_size as int);
        assert(n * entry_size == len) by (nonlinear_arith)
            requires
                len == entry_size * (len / entry_size as int) + len % (entry_size as int),
                len % (entry_size as int) == 0,
                n == len / entry_size as int,
        ;
    }
    n
}

} // verus!

//! What the `school_main` and `school_dual_main` entry-point macros do with
//! the items of a sketch file: which function becomes the set-up block,
//! which the loop body of each core, and which items are kept as they are.
use vstd::prelude::*;
use crate::text::{chars_of, same_chars};

verus! {

/// A top-level item of a sketch file, as far as the entry-point macros look
/// at it.
pub enum SketchItem {
    /// A function, with its name.
    Function(String),
    /// Any other item (imports, constants, structs, ...).
    Other,
}

/// Why a sketch cannot be expanded.
#[derive(Clone, Copy, Debug, PartialEq, Eq, Structural)]
pub enum SketchError {
    /// A single-core sketch without `fn loop_tick()`.
    MissingLoopTick,
    /// A dual-core sketch without `fn loop_tick_1()` (the core 0 loop).
    MissingLoopTick1,
    /// A dual-core sketch without `fn loop_tick_2()` (the core 1 loop).
    MissingLoopTick2,
}

/// How a single-core sketch is expanded: indices into its items.
pub struct SingleCorePlan {
    /// The function whose body runs once at start-up, if there is one.
    pub setup: Option<usize>,
    /// The function whose body runs in the main loop.
    pub main_loop: usize,
    /// The items copied unchanged in front of the generated entry point.
    pub others: Vec<usize>,
}

/// How a dual-core sketch is expanded: indices into its items.
pub struct DualCorePlan {
    /// The function whose body runs once at start-up, if there is one.
    pub setup: Option<usize>,
    /// The function whose body loops on core 0.
    pub core0_loop: usize,
    /// The function whose body loops on core 1.
    pub core1_loop: usize,
    /// The items copied unchanged in front of the generated entry point.
    pub others: Vec<usize>,
}

/// `item` is a function called `name`.
pub open spec fn is_fn_named(item: SketchItem, name: Seq<char>) -> bool {
    item matches SketchItem::Function(n) && n@ == name
}

/// The last of the first `n` items that is a function called `name`.
pub open spec fn last_fn_named(items: Seq<SketchItem>, name: Seq<char>, n: int) -> Option<usize>
    decreases n,
{
    if n <= 0 {
        None
    } else if is_fn_named(items[n - 1], name) {
        Some((n - 1) as usize)
    } else {
        last_fn_named(items, name, n - 1)
    }
}

/// `item` is a function whose name is one of `names`.
pub open spec fn is_entry_fn(item: SketchItem, names: Seq<Seq<char>>) -> bool {
    exists|j: int| 0 <= j < names.len() && is_fn_named(item, #[trigger] names[j])
}

/// The indices, in order, of the first `n` items that are not functions
/// named in `names`.
pub open spec fn kept_items(items: Seq<SketchItem>, names: Seq<Seq<char>>, n: int) -> Seq<usize>
    decreases n,
{
    if n <= 0 {
        Seq::empty()
    } else if is_entry_fn(items[n - 1], names) {
        kept_items(items, names, n - 1)
    } else {
        kept_items(items, names, n - 1).push((n - 1) as usize)
    }
}

/// The entry-point names of a single-core sketch.
pub open spec fn single_core_names() -> Seq<Seq<char>> {
    seq!["setup"@, "loop_tick"@]
}

/// The entry-point names of a dual-core sketch.
pub open spec fn dual_core_names() -> Seq<Seq<char>> {
    seq!["setup"@, "loop_tick_1"@, "loop_tick_2"@]
}

/// Entry functions are recognised by their exact name: `last_fn_named`
/// gives the last of the first `n` items that is a function whose name is
/// exactly `name`, and `None` when there is no such function.
pub proof fn lemma_last_fn_named_exact(items: Seq<SketchItem>, name: Seq<char>, n: int)
    requires
        0 <= n <= items.len() <= usize::MAX,
    ensures
        match last_fn_named(items, name, n) {
            Some(s) => {
                &&& s < n
                &&& items[s as int] is Function && items[s as int]->0@ == name
                &&& forall|k: int| s < k < n ==> !(#[trigger] items[k] is Function && items[k]->0@ == name)
            },
            None => forall|k: int| 0 <= k < n ==> !(#[trigger] items[k] is Function && items[k]->0@ == name),
        },
    decreases n,
{
    if n > 0 {
        lemma_last_fn_named_exact(items, name, n - 1);
    }
}

/// The kept items are, in increasing order, exactly those of the first `n`
/// items that are not functions whose name is exactly one of `names`: a
/// function called anything else (`motor_setup`, `loop_tick_3`, ...) is
/// kept.
pub proof fn lemma_kept_items_exact(items: Seq<SketchItem>, names: Seq<Seq<char>>, n: int)
    requires
        0 <= n <= items.len() <= usize::MAX,
    ensures
        forall|k: int| 0 <= k < n ==> (kept_items(items, names, n).contains(k as usize) <==>
            !(#[trigger] items[k] is Function && exists|j: int| 0 <= j < names.len() && names[j] == items[k]->0@)),
        forall|a: int, b: int| 0 <= a < b < kept_items(items, names, n).len() ==>
            kept_items(items, names, n)[a] < kept_items(items, names, n)[b],
        forall|a: int| 0 <= a < kept_items(items, names, n).len() ==> kept_items(items, names, n)[a] < n,
    decreases n,
{
    if n > 0 {
        lemma_kept_items_exact(items, names, n - 1);
        let prev = kept_items(items, names, n - 1);
        let item = items[n - 1];
        let entry = item is Function && exists|j: int| 0 <= j < names.len() && names[j] == item->0@;
        if is_entry_fn(item, names) {
            let j = choose|j: int| 0 <= j < names.len() && is_fn_named(item, #[trigger] names[j]);
            assert(names[j] == item->0@);
        }
        if entry {
            let j = choose|j: int| 0 <= j < names.len() && names[j] == item->0@;
            assert(is_fn_named(item, names[j]));
        }
        let cur = kept_items(items, names, n);
        assert forall|k: int| 0 <= k < n implies (cur.contains(k as usize) <==>
            !(#[trigger] items[k] is Function && exists|j: int| 0 <= j < names.len() && names[j] == items[k]->0@)) by {
            if k < n - 1 {
                if cur.contains(k as usize) && !prev.contains(k as usize) {
                    let a = choose|a: int| 0 <= a < cur.len() && cur[a] == k as usize;
                    assert(a == prev.len());
                }
                if prev.contains(k as usize) {
                    let a = choose|a: int| 0 <= a < prev.len() && prev[a] == k as usize;
                    assert(cur[a] == k as usize);
                }
            } else {
                if cur.contains(k as usize) && !entry {
                } else if !entry {
                    assert(cur[cur.len() - 1] == k as usize);
                } else if cur.contains(k as usize) {
                    let a = choose|a: int| 0 <= a < cur.len() && cur[a] == k as usize;
                    assert(prev[a] < n - 1);
                }
            }
        }
    }
}

/// Whether `item` is a function called `name`.
fn item_is_fn_named(item: &SketchItem, name: &Vec<char>) -> (r: bool)
    ensures
        r == is_fn_named(*item, name@),
{
    match item {
        SketchItem::Function(n) => same_chars(&chars_of(n.as_str()), name),
        SketchItem::Other => false,
    }
}

/// Plans the expansion of `#[school_main]`: the last `fn setup` gives the
/// set-up block, the last `fn loop_tick` the loop body, and every other
/// item is kept in order; a sketch without `fn loop_tick` is refused.
pub fn plan_school_main(items: &Vec<SketchItem>) -> (r: Result<SingleCorePlan, SketchError>)
    ensures
        match r {
            Ok(plan) => {
                &&& last_fn_named(items@, "loop_tick"@, items@.len() as int) == Some(plan.main_loop)
                &&& plan.setup == last_fn_named(items@, "setup"@, items@.len() as int)
                &&& plan.others@ == kept_items(items@, single_core_names(), items@.len() as int)
            },
            Err(e) => {
                &&& e == SketchError::MissingLoopTick
                &&& last_fn_named(items@, "loop_tick"@, items@.len() as int) is None
            },
        },
{
    let setup_name = chars_of("setup");
    let loop_name = chars_of("loop_tick");
    let ghost names = single_core_names();
    let mut setup: Option<usize> = None;
    let mut main_loop: Option<usize> = None;
    let mut others: Vec<usize> = Vec::new();
    let mut i: usize = 0;
    while i < items.len()
        invariant
            i <= items.len(),
            setup_name@ == "setup"@,
            loop_name@ == "loop_tick"@,
            names == single_core_names(),
            setup == last_fn_named(items@, "setup"@, i as int),
            main_loop == last_fn_named(items@, "loop_tick"@, i as int),
            others@ == kept_items(items@, names, i as int),
        decreases items.len() - i,
    {
        let is_setup = item_is_fn_named(&items[i], &setup_name);
        let is_loop = item_is_fn_named(&items[i], &loop_name);
        proof {
            let item = items@[i as int];
            reveal_strlit("setup");
            reveal_strlit("loop_tick");
            assert("setup"@.len() != "loop_tick"@.len());
            if is_setup || is_loop {
                assert(is_entry_fn(item, names)) by {
                    if is_setup {
                        assert(is_fn_named(item, names[0]));
                    } else {
                        assert(is_fn_named(item, names[1]));
                    }
                }
            } else {
                if is_entry_fn(item, names) {
                    let j = choose|j: int| 0 <= j < names.len() && is_fn_named(item, #[trigger] names[j]);
                    assert(j == 0 || j == 1);
                }
            }
        }
        if is_setup {
            setup = Some(i);
        } else if is_loop {
            main_loop = Some(i);
        } else {
            others.push(i);
        }
        i = i + 1;
    }
    match main_loop {
        Some(l) => Ok(SingleCorePlan { setup, main_loop: l, others }),
        None => Err(SketchError::MissingLoopTick),
    }
}

/// Plans the expansion of `#[school_dual_main]`: the last `fn setup` gives
/// the set-up block, the last `fn loop_tick_1` the loop of core 0 and the
/// last `fn loop_tick_2` the loop of core 1; every other item is kept in
/// order. A sketch without `fn loop_tick_1` is refused first, then one
/// without `fn loop_tick_2`.
pub fn plan_school_dual_main(items: &Vec<SketchItem>) -> (r: Result<DualCorePlan, SketchError>)
    ensures
        match r {
            Ok(plan) => {
                &&& last_fn_named(items@, "loop_tick_1"@, items@.len() as int) == Some(plan.core0_loop)
                &&& last_fn_named(items@, "loop_tick_2"@, items@.len() as int) == Some(plan.core1_loop)
                &&& plan.setup == last_fn_named(items@, "setup"@, items@.len() as int)
                &&& plan.others@ == kept_items(items@, dual_core_names(), items@.len() as int)
            },
            Err(e) => {
                ||| e == SketchError::MissingLoopTick1
                    && last_fn_named(items@, "loop_tick_1"@, items@.len() as int) is None
                ||| e == SketchError::MissingLoopTick2
                    && last_fn_named(items@, "loop_tick_1"@, items@.len() as int) is Some
                    && last_fn_named(items@, "loop_tick_2"@, items@.len() as int) is None
            },
        },
{
    let setup_name = chars_of("setup");
    let loop1_name = chars_of("loop_tick_1");
    let loop2_name = chars_of("loop_tick_2");
    let ghost names = dual_core_names();
    let mut setup: Option<usize> = None;
    let mut loop1: Option<usize> = None;
    let mut loop2: Option<usize> = None;
    let mut others: Vec<usize> = Vec::new();
    let mut i: usize = 0;
    while i < items.len()
        invariant
            i <= items.len(),
            setup_name@ == "setup"@,
            loop1_name@ == "loop_tick_1"@,
            loop2_name@ == "loop_tick_2"@,
            names == dual_core_names(),
            setup == last_fn_named(items@, "setup"@, i as int),
            loop1 == last_fn_named(items@, "loop_tick_1"@, i as int),
            loop2 == last_fn_named(items@, "loop_tick_2"@, i as int),
            others@ == kept_items(items@, names, i as int),
        decreases items.len() - i,
    {
        let is_setup = item_is_fn_named(&items[i], &setup_name);
        let is_loop1 = item_is_fn_named(&items[i], &loop1_name);
        let is_loop2 = item_is_fn_named(&items[i], &loop2_name);
        proof {
            let item = items@[i as int];
            reveal_strlit("setup");
            reveal_strlit("loop_tick_1");
            reveal_strlit("loop_tick_2");
            assert("setup"@.len() != "loop_tick_1"@.len());
            assert("setup"@.len() != "loop_tick_2"@.len());
            assert("loop_tick_1"@[10] != "loop_tick_2"@[10]);
            if is_setup || is_loop1 || is_loop2 {
                assert(is_entry_fn(item, names)) by {
                    if is_setup {
                        assert(is_fn_named(item, names[0]));
                    } else if is_loop1 {
                        assert(is_fn_named(item, names[1]));
                    } else {
                        assert(is_fn_named(item, names[2]));
                    }
                }
            } else {
                if is_entry_fn(item, names) {
                    let j = choose|j: int| 0 <= j < names.len() && is_fn_named(item, #[trigger] names[j]);
                    assert(j == 0 || j == 1 || j == 2);
                }
            }
        }
        if is_setup {
            setup = Some(i);
        } else if is_loop1 {
            loop1 = Some(i);
        } else if is_loop2 {
            loop2 = Some(i);
        } else {
            others.push(i);
        }
        i = i + 1;
    }
    match loop1 {
        None => Err(SketchError::MissingLoopTick1),
        Some(l1) => match loop2 {
            None => Err(SketchError::MissingLoopTick2),
            Some(l2) => Ok(DualCorePlan { setup, core0_loop: l1, core1_loop: l2, others }),
        },
    }
}

} // verus!

use ariel_school::sketch_macro::{plan_school_dual_main, plan_school_main, SketchError, SketchItem};

fn f(name: &str) -> SketchItem {
    SketchItem::Function(name.to_string())
}

#[test]
fn single_core_plan_picks_entry_points() {
    let items = vec![SketchItem::Other, f("setup"), f("helper"), f("loop_tick"), SketchItem::Other];
    let plan = plan_school_main(&items).ok().unwrap();
    assert_eq!(plan.setup, Some(1));
    assert_eq!(plan.main_loop, 3);
    assert_eq!(plan.others, vec![0, 2, 4]);
}

#[test]
fn single_core_setup_is_optional_and_last_one_wins() {
    let items = vec![f("loop_tick"), f("loop_tick"), f("x")];
    let plan = plan_school_main(&items).ok().unwrap();
    assert_eq!(plan.setup, None);
    assert_eq!(plan.main_loop, 1);
    assert_eq!(plan.others, vec![2]);
}

#[test]
fn single_core_without_loop_is_refused() {
    let items = vec![f("setup"), f("loop_tick_1")];
    assert_eq!(plan_school_main(&items).err(), Some(SketchError::MissingLoopTick));
    assert_eq!(plan_school_main(&vec![]).err(), Some(SketchError::MissingLoopTick));
}

#[test]
fn dual_core_plan_picks_both_loops() {
    let items = vec![f("loop_tick_2"), SketchItem::Other, f("loop_tick_1"), f("setup"), f("loop_tick")];
    let plan = plan_school_dual_main(&items).ok().unwrap();
    assert_eq!(plan.setup, Some(3));
    assert_eq!(plan.core0_loop, 2);
    assert_eq!(plan.core1_loop, 0);
    assert_eq!(plan.others, vec![1, 4]);
}

#[test]
fn dual_core_missing_loops_are_refused_in_order() {
    assert_eq!(plan_school_dual_main(&vec![f("setup")]).err(), Some(SketchError::MissingLoopTick1));
    assert_eq!(plan_school_dual_main(&vec![f("loop_tick_2")]).err(), Some(SketchError::MissingLoopTick1));
    assert_eq!(plan_school_dual_main(&vec![f("loop_tick_1")]).err(), Some(SketchError::MissingLoopTick2));
}

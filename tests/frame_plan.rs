use vr_renderer::frame::{plan_frame, Eye, PassCommand};

#[test]
fn nothing_ready_draws_nothing() {
    let plan = plan_frame(&vec![false, false, false]);
    assert_eq!(
        plan,
        vec![
            PassCommand::Begin(Eye::Left),
            PassCommand::End(Eye::Left),
            PassCommand::Begin(Eye::Right),
            PassCommand::End(Eye::Right),
        ]
    );
}

#[test]
fn empty_scene_draws_nothing() {
    let plan = plan_frame(&vec![]);
    assert_eq!(plan.len(), 4);
    assert!(plan.iter().all(|c| !matches!(c, PassCommand::Draw(_, _))));
}

#[test]
fn ready_models_drawn_per_eye_in_scene_order() {
    let plan = plan_frame(&vec![true, false, true, true]);
    assert_eq!(
        plan,
        vec![
            PassCommand::Begin(Eye::Left),
            PassCommand::Draw(Eye::Left, 0),
            PassCommand::Draw(Eye::Left, 2),
            PassCommand::Draw(Eye::Left, 3),
            PassCommand::End(Eye::Left),
            PassCommand::Begin(Eye::Right),
            PassCommand::Draw(Eye::Right, 0),
            PassCommand::Draw(Eye::Right, 2),
            PassCommand::Draw(Eye::Right, 3),
            PassCommand::End(Eye::Right),
        ]
    );
}

#[test]
fn draw_count_matches_ready_count() {
    let loaded: Vec<bool> = (0..50).map(|i| i % 3 != 0).collect();
    let ready = loaded.iter().filter(|b| **b).count();
    let plan = plan_frame(&loaded);
    let left = plan.iter().filter(|c| matches!(c, PassCommand::Draw(Eye::Left, _))).count();
    let right = plan.iter().filter(|c| matches!(c, PassCommand::Draw(Eye::Right, _))).count();
    assert_eq!(left, ready);
    assert_eq!(right, ready);
}

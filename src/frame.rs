use vstd::prelude::*;

verus! {

/// One of the two eyes of the headset.
#[derive(Debug, Clone, Copy, PartialEq, Eq, Structural)]
pub enum Eye {
    Left,
    Right,
}

/// One step of the command sequence recorded for a frame.
#[derive(Debug, Clone, Copy, PartialEq, Eq, Structural)]
pub enum PassCommand {
    /// Begin the eye's render pass, clearing its color and depth.
    Begin(Eye),
    /// Indexed draw of the scene entry at this position, with the eye's
    /// view-projection applied to the entry's world transform.
    Draw(Eye, usize),
    /// End the eye's render pass.
    End(Eye),
}

/// Positions of the ready models of the scene, in scene order.
pub open spec fn ready_indices(loaded: Seq<bool>) -> Seq<int>
    decreases loaded.len(),
{
    if loaded.len() == 0 {
        Seq::empty()
    } else {
        let rest = ready_indices(loaded.drop_last());
        if loaded.last() {
            rest.push(loaded.len() - 1)
        } else {
            rest
        }
    }
}

/// The draws of one eye's pass: one per ready model, in scene order.
pub open spec fn eye_draws(eye: Eye, loaded: Seq<bool>) -> Seq<PassCommand> {
    ready_indices(loaded).map_values(|i: int| PassCommand::Draw(eye, i as usize))
}

/// The commands of one eye's render pass.
pub open spec fn eye_pass(eye: Eye, loaded: Seq<bool>) -> Seq<PassCommand> {
    seq![PassCommand::Begin(eye)] + eye_draws(eye, loaded) + seq![PassCommand::End(eye)]
}

/// The commands recorded for a frame: the left pass, then the right pass.
pub open spec fn frame_commands(loaded: Seq<bool>) -> Seq<PassCommand> {
    eye_pass(Eye::Left, loaded) + eye_pass(Eye::Right, loaded)
}

proof fn lemma_ready_prefix(loaded: Seq<bool>, i: int)
    requires
        0 <= i < loaded.len(),
    ensures
        ready_indices(loaded.subrange(0, i + 1)) == (if loaded[i] {
            ready_indices(loaded.subrange(0, i)).push(i)
        } else {
            ready_indices(loaded.subrange(0, i))
        }),
{
    assert(loaded.subrange(0, i + 1).drop_last() =~= loaded.subrange(0, i));
}

/// Appends the commands of `eye`'s render pass over the scene whose model
/// readiness is `loaded`.
fn record_eye_pass(eye: Eye, loaded: &Vec<bool>, out: &mut Vec<PassCommand>)
    ensures
        final(out)@ == old(out)@ + eye_pass(eye, loaded@),
{
    let ghost start = out@;
    out.push(PassCommand::Begin(eye));
    let mut i: usize = 0;
    while i < loaded.len()
        invariant
            0 <= i <= loaded.len(),
            out@ == start + seq![PassCommand::Begin(eye)] + eye_draws(eye, loaded@.subrange(0, i as int)),
        decreases loaded.len() - i,
    {
        proof {
            lemma_ready_prefix(loaded@, i as int);
        }
        if loaded[i] {
            out.push(PassCommand::Draw(eye, i));
            assert(eye_draws(eye, loaded@.subrange(0, i + 1)) =~= eye_draws(eye, loaded@.subrange(0, i as int)).push(
                PassCommand::Draw(eye, i),
            ));
        }
        i = i + 1;
    }
    assert(loaded@.subrange(0, loaded.len() as int) =~= loaded@);
    out.push(PassCommand::End(eye));
    assert(out@ =~= start + eye_pass(eye, loaded@));
}

/// The commands to record for one frame, given for each scene entry, in
/// scene order, whether its model is ready: the left eye's pass, then the
/// right eye's, each drawing every ready model in scene order and skipping
/// the others.
pub fn plan_frame(loaded: &Vec<bool>) -> (r: Vec<PassCommand>)
    ensures
        r@ == frame_commands(loaded@),
{
    let mut out: Vec<PassCommand> = Vec::new();
    record_eye_pass(Eye::Left, loaded, &mut out);
    record_eye_pass(Eye::Right, loaded, &mut out);
    assert(out@ =~= frame_commands(loaded@));
    out
}

/// A scene in which no model is ready records only the beginning and end of
/// the two passes: no draw at all, for either eye.
pub proof fn lemma_nothing_ready_draws_nothing(loaded: Seq<bool>)
    requires
        forall|i: int| 0 <= i < loaded.len() ==> !loaded[i],
    ensures
        frame_commands(loaded) == seq![
            PassCommand::Begin(Eye::Left),
            PassCommand::End(Eye::Left),
            PassCommand::Begin(Eye::Right),
            PassCommand::End(Eye::Right),
        ],
        forall|k: int| 0 <= k < frame_commands(loaded).len() ==> !(frame_commands(loaded)[k] is Draw),
{
    lemma_ready_indices(loaded);
    if ready_indices(loaded).len() > 0 {
        let i = ready_indices(loaded)[0];
        assert(ready_indices(loaded).contains(i));
    }
    assert(frame_commands(loaded) =~= seq![
        PassCommand::Begin(Eye::Left),
        PassCommand::End(Eye::Left),
        PassCommand::Begin(Eye::Right),
        PassCommand::End(Eye::Right),
    ]);
}

/// The ready positions are exactly the positions of ready models, each once,
/// in increasing (scene) order.
pub proof fn lemma_ready_indices(loaded: Seq<bool>)
    ensures
        forall|k: int| 0 <= k < ready_indices(loaded).len() ==> {
            let i = #[trigger] ready_indices(loaded)[k];
            0 <= i < loaded.len() && loaded[i]
        },
        forall|k: int, m: int| 0 <= k < m < ready_indices(loaded).len() ==>
            ready_indices(loaded)[k] < ready_indices(loaded)[m],
        forall|i: int| 0 <= i < loaded.len() && loaded[i] ==> ready_indices(loaded).contains(i),
    decreases loaded.len(),
{
    if loaded.len() > 0 {
        let init = loaded.drop_last();
        lemma_ready_indices(init);
        assert forall|i: int| 0 <= i < loaded.len() && loaded[i] implies ready_indices(loaded).contains(i) by {
            if i < loaded.len() - 1 {
                assert(init[i] == loaded[i]);
                let k = choose|k: int| 0 <= k < ready_indices(init).len() && ready_indices(init)[k] == i;
                assert(ready_indices(loaded)[k] == i);
            } else {
                assert(ready_indices(loaded).last() == i);
            }
        }
    }
}

/// With N ready models in the scene, the frame records, for each eye in
/// turn (left, then right), exactly N indexed draws: the k-th draw of each
/// pass is of the k-th ready model in scene order.
pub proof fn lemma_ready_models_drawn_in_order(loaded: Seq<bool>)
    ensures
        frame_commands(loaded) == seq![PassCommand::Begin(Eye::Left)] + eye_draws(Eye::Left, loaded) + seq![
            PassCommand::End(Eye::Left),
            PassCommand::Begin(Eye::Right),
        ] + eye_draws(Eye::Right, loaded) + seq![PassCommand::End(Eye::Right)],
        eye_draws(Eye::Left, loaded).len() == ready_indices(loaded).len(),
        eye_draws(Eye::Right, loaded).len() == ready_indices(loaded).len(),
        forall|k: int| 0 <= k < ready_indices(loaded).len() ==> {
            &&& #[trigger] eye_draws(Eye::Left, loaded)[k] == PassCommand::Draw(Eye::Left, ready_indices(loaded)[k] as usize)
            &&& eye_draws(Eye::Right, loaded)[k] == PassCommand::Draw(Eye::Right, ready_indices(loaded)[k] as usize)
        },
        forall|k: int| 0 <= k < ready_indices(loaded).len() ==> {
            let i = #[trigger] ready_indices(loaded)[k];
            0 <= i < loaded.len() && loaded[i]
        },
        forall|k: int, m: int| 0 <= k < m < ready_indices(loaded).len() ==>
            ready_indices(loaded)[k] < ready_indices(loaded)[m],
        forall|i: int| 0 <= i < loaded.len() && loaded[i] ==> ready_indices(loaded).contains(i),
{
    lemma_ready_indices(loaded);
    assert(frame_commands(loaded) =~= seq![PassCommand::Begin(Eye::Left)] + eye_draws(Eye::Left, loaded) + seq![
        PassCommand::End(Eye::Left),
        PassCommand::Begin(Eye::Right),
    ] + eye_draws(Eye::Right, loaded) + seq![PassCommand::End(Eye::Right)]);
}

} // verus!

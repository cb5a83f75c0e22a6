use vstd::prelude::*;

verus! {

/// The render stages the host scheduler runs each frame.
#[derive(Clone, Copy, Debug, PartialEq, Eq, Structural)]
pub enum Stage {
    PreRender,
    Render,
    UiDrawWidgets,
    UiRender,
    PostRender,
}

/// The position of a stage in the frame.
pub open spec fn stage_rank(s: Stage) -> int {
    match s {
        Stage::PreRender => 0,
        Stage::Render => 1,
        Stage::UiDrawWidgets => 2,
        Stage::UiRender => 3,
        Stage::PostRender => 4,
    }
}

/// The ordering constraints the stages declare, as `(earlier, later)` pairs.
pub open spec fn declared_edges() -> Seq<(Stage, Stage)> {
    seq![
        (Stage::PreRender, Stage::Render),
        (Stage::Render, Stage::UiDrawWidgets),
        (Stage::UiDrawWidgets, Stage::UiRender),
        (Stage::UiRender, Stage::PostRender),
    ]
}

/// The ordering constraints the stages declare: each pair names a stage and
/// one that must run after it.
pub fn stage_edges() -> (r: Vec<(Stage, Stage)>)
    ensures
        r@ == declared_edges(),
{
    let r = vec![
        (Stage::PreRender, Stage::Render),
        (Stage::Render, Stage::UiDrawWidgets),
        (Stage::UiDrawWidgets, Stage::UiRender),
        (Stage::UiRender, Stage::PostRender),
    ];
    proof {
        assert(r@ =~= declared_edges());
    }
    r
}

/// The order in which the stages run within a frame.
pub fn run_order() -> (r: Vec<Stage>)
    ensures
        r@.len() == 5,
        forall|i: int| 0 <= i < 5 ==> stage_rank(#[trigger] r@[i]) == i,
{
    vec![Stage::PreRender, Stage::Render, Stage::UiDrawWidgets, Stage::UiRender, Stage::PostRender]
}

/// The run order satisfies every declared constraint, so the constraints
/// have no cycle.
pub proof fn lemma_run_order_respects_edges(order: Seq<Stage>)
    requires
        order.len() == 5,
        forall|i: int| 0 <= i < 5 ==> stage_rank(#[trigger] order[i]) == i,
    ensures
        forall|k: int|
            0 <= k < declared_edges().len() ==> stage_rank((#[trigger] declared_edges()[k]).0)
                < stage_rank(declared_edges()[k].1),
        forall|s: Stage| #[trigger] order.contains(s),
{
    assert forall|s: Stage| #[trigger] order.contains(s) by {
        let i = stage_rank(s);
        assert(stage_rank(order[i]) == i);
        assert(order[i] == s);
    }
}

} // verus!

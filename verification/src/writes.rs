//! What the console does once a write has answered: the toast, which
//! surface closes, where it goes next, and where a refusal is shown.
use vstd::prelude::*;

use crate::edits::{Edit, asks_first};

verus! {

/// What the store said to a write it took.
#[derive(Debug)]
pub struct WriteDone {
    /// Its own words, for the toast.
    pub message: String,
    /// What it made, where it made something.
    pub id: String,
}

/// One thing the console does after a write.
#[derive(Debug, PartialEq, Eq)]
pub enum Effect {
    /// The modal's button stops spinning.
    FormIdle,
    /// The composer's button stops spinning.
    ComposerIdle,
    Toast { text: String, good: bool },
    /// The composer empties.
    ResetComposer,
    /// The board and what the write touched are stale.
    Refresh,
    CloseEdit,
    /// The plan editor's draft empties.
    ResetPlan,
    /// The feature just made opens once it is on the board.
    OpenAfter(String),
    ShowFeatures,
    CloseDrawer,
    /// The refusal, on the composer's line.
    ComposerError(String),
    /// The refusal, on the modal's line.
    FormError(String),
}

/// An effect by its texts.
pub enum EffectView {
    FormIdle,
    ComposerIdle,
    Toast(Seq<char>, bool),
    ResetComposer,
    Refresh,
    CloseEdit,
    ResetPlan,
    OpenAfter(Seq<char>),
    ShowFeatures,
    CloseDrawer,
    ComposerError(Seq<char>),
    FormError(Seq<char>),
}

/// An effect by its texts.
pub open spec fn effect_view(e: Effect) -> EffectView {
    match e {
        Effect::FormIdle => EffectView::FormIdle,
        Effect::ComposerIdle => EffectView::ComposerIdle,
        Effect::Toast { text, good } => EffectView::Toast(text@, good),
        Effect::ResetComposer => EffectView::ResetComposer,
        Effect::Refresh => EffectView::Refresh,
        Effect::CloseEdit => EffectView::CloseEdit,
        Effect::ResetPlan => EffectView::ResetPlan,
        Effect::OpenAfter(id) => EffectView::OpenAfter(id@),
        Effect::ShowFeatures => EffectView::ShowFeatures,
        Effect::CloseDrawer => EffectView::CloseDrawer,
        Effect::ComposerError(why) => EffectView::ComposerError(why@),
        Effect::FormError(why) => EffectView::FormError(why@),
    }
}

/// Effects by their texts.
pub open spec fn effects_view(es: Seq<Effect>) -> Seq<EffectView> {
    es.map_values(|e: Effect| effect_view(e))
}

/// Where a taken write goes next: a new plan opens its feature, a
/// deleted one goes back to the list, a deleted want or module closes
/// its drawer.
pub open spec fn next_after(edit: Edit, id: Seq<char>) -> Seq<EffectView> {
    match edit {
        Edit::CreatePlan => seq![EffectView::ResetPlan, EffectView::OpenAfter(id), EffectView::ShowFeatures],
        Edit::DeleteFeature { .. } => seq![EffectView::ShowFeatures],
        Edit::DeleteWant { .. } | Edit::RemoveModule { .. } => seq![EffectView::CloseDrawer],
        _ => Seq::empty(),
    }
}

/// What the console does once a write answers. The composer is its own
/// surface with its own busy flag and refusal line; every other write
/// closes the modal when taken and shows its refusal on the modal when
/// it asked something there (or was the plan editor's), else as a toast.
pub open spec fn after(edit: Edit, outcome: Result<(Seq<char>, Seq<char>), Seq<char>>) -> Seq<EffectView> {
    if edit is PostComment {
        seq![EffectView::FormIdle, EffectView::ComposerIdle] + match outcome {
            Ok((message, _)) => seq![EffectView::Toast(message, true), EffectView::ResetComposer, EffectView::Refresh],
            Err(why) => seq![EffectView::ComposerError(why)],
        }
    } else {
        seq![EffectView::FormIdle] + match outcome {
            Ok((message, id)) => seq![EffectView::Toast(message, true), EffectView::CloseEdit, EffectView::Refresh]
                + next_after(edit, id),
            Err(why) => if asks_first(edit) || edit is CreatePlan {
                seq![EffectView::FormError(why)]
            } else {
                seq![EffectView::Toast(why, false)]
            },
        }
    }
}

/// An outcome by its texts.
pub open spec fn outcome_view(o: Result<WriteDone, String>) -> Result<(Seq<char>, Seq<char>), Seq<char>> {
    match o {
        Ok(d) => Ok((d.message@, d.id@)),
        Err(why) => Err(why@),
    }
}

fn push_view(out: &mut Vec<Effect>, e: Effect)
    ensures
        effects_view(final(out)@) == effects_view(old(out)@).push(effect_view(e)),
{
    let ghost before = out@;
    out.push(e);
    assert(effects_view(out@) =~= effects_view(before).push(effect_view(e)));
}

/// The effects of a write's answer, in the order they happen.
pub fn after_write(edit: &Edit, outcome: Result<WriteDone, String>) -> (r: Vec<Effect>)
    ensures
        effects_view(r@) == after(*edit, outcome_view(outcome)),
{
    let ghost o = outcome_view(outcome);
    let mut out: Vec<Effect> = Vec::new();
    push_view(&mut out, Effect::FormIdle);
    if let Edit::PostComment { .. } = edit {
        push_view(&mut out, Effect::ComposerIdle);
        match outcome {
            Ok(done) => {
                push_view(&mut out, Effect::Toast { text: done.message, good: true });
                push_view(&mut out, Effect::ResetComposer);
                push_view(&mut out, Effect::Refresh);
            },
            Err(why) => {
                push_view(&mut out, Effect::ComposerError(why));
            },
        }
        assert(effects_view(out@) =~= after(*edit, o));
        return out;
    }
    match outcome {
        Ok(done) => {
            push_view(&mut out, Effect::Toast { text: done.message, good: true });
            push_view(&mut out, Effect::CloseEdit);
            push_view(&mut out, Effect::Refresh);
            match edit {
                Edit::CreatePlan => {
                    push_view(&mut out, Effect::ResetPlan);
                    push_view(&mut out, Effect::OpenAfter(done.id));
                    push_view(&mut out, Effect::ShowFeatures);
                },
                Edit::DeleteFeature { .. } => {
                    push_view(&mut out, Effect::ShowFeatures);
                },
                Edit::DeleteWant { .. } | Edit::RemoveModule { .. } => {
                    push_view(&mut out, Effect::CloseDrawer);
                },
                _ => {},
            }
        },
        Err(why) => {
            let on_form = edit.is_modal() || matches!(edit, Edit::CreatePlan);
            if on_form {
                push_view(&mut out, Effect::FormError(why));
            } else {
                push_view(&mut out, Effect::Toast { text: why, good: false });
            }
        },
    }
    assert(effects_view(out@) =~= after(*edit, o));
    out
}

} // verus!

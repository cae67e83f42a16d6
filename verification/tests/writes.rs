use control_center::edits::Edit;
use control_center::writes::{after_write, Effect, WriteDone};

fn done(message: &str, id: &str) -> Result<WriteDone, String> {
    Ok(WriteDone { message: message.into(), id: id.into() })
}

#[test]
fn a_new_plan_opens_its_feature() {
    let es = after_write(&Edit::CreatePlan, done("Planned", "feat_9"));
    assert_eq!(
        es,
        vec![
            Effect::FormIdle,
            Effect::Toast { text: "Planned".into(), good: true },
            Effect::CloseEdit,
            Effect::Refresh,
            Effect::ResetPlan,
            Effect::OpenAfter("feat_9".into()),
            Effect::ShowFeatures,
        ]
    );
}

#[test]
fn a_taken_write_closes_what_it_removed() {
    let es = after_write(&Edit::DeleteWant { want: "w".into() }, done("Deleted", ""));
    assert_eq!(es.last(), Some(&Effect::CloseDrawer));
    let es = after_write(&Edit::DeleteFeature { feature: "f".into() }, done("Deleted", ""));
    assert_eq!(es.last(), Some(&Effect::ShowFeatures));
    let es = after_write(&Edit::RenameFeature { feature: "f".into() }, done("Renamed", ""));
    assert_eq!(es.len(), 4);
}

#[test]
fn a_refusal_lands_where_the_write_was_asked() {
    let es = after_write(&Edit::RenameFeature { feature: "f".into() }, Err("taken".into()));
    assert_eq!(es, vec![Effect::FormIdle, Effect::FormError("taken".into())]);
    let es = after_write(&Edit::CreatePlan, Err("no modules".into()));
    assert_eq!(es, vec![Effect::FormIdle, Effect::FormError("no modules".into())]);
    let es = after_write(&Edit::ReopenWant { want: "w".into() }, Err("gone".into()));
    assert_eq!(es, vec![Effect::FormIdle, Effect::Toast { text: "gone".into(), good: false }]);
}

#[test]
fn the_composer_keeps_its_own_line() {
    let post = Edit::PostComment { subject: "s".into() };
    let es = after_write(&post, done("Posted", "c1"));
    assert_eq!(
        es,
        vec![
            Effect::FormIdle,
            Effect::ComposerIdle,
            Effect::Toast { text: "Posted".into(), good: true },
            Effect::ResetComposer,
            Effect::Refresh,
        ]
    );
    let es = after_write(&post, Err("empty".into()));
    assert_eq!(es, vec![Effect::FormIdle, Effect::ComposerIdle, Effect::ComposerError("empty".into())]);
}

use surya_ui::model_default::{default_model, Model};
use surya_ui::model_prefetch::{prefetch_targets, ModelPrefetch};
use surya_ui::proto::HarnessId;

fn model(id: &str, label: &str) -> Model {
    Model {
        id: id.into(),
        label: label.into(),
        description: None,
    }
}

#[test]
fn default_model_prefers_opus_and_falls_back_to_the_first_row() {
    let models = vec![model("flagship", "Flagship"), model("fast", "Fast")];
    assert_eq!(default_model(&models).map(|m| &*m.id), Some("flagship"));
    assert!(default_model(&[]).is_none());
}

#[test]
fn an_opus_row_wins_wherever_it_sits_in_the_catalog() {
    let models = vec![
        model("model-fable-5-1", "Fable 5.1"),
        model("model-opus-5", "Opus 5"),
        model("model-opus-4-8", "Opus 4.8"),
    ];
    assert_eq!(
        default_model(&models).map(|m| &*m.id),
        Some("model-opus-5"),
        "row order must not decide this any more, and the newest Opus wins"
    );
}

#[test]
fn opus_is_found_in_any_case() {
    let models = vec![model("a", "A"), model("Big-OPUS-x", "X")];
    assert_eq!(default_model(&models).map(|m| &*m.id), Some("Big-OPUS-x"));
}

const OFFERED: [HarnessId; 3] = [HarnessId::ClaudeCode, HarnessId::Codex, HarnessId::Mock];

#[test]
fn a_load_asks_for_the_effective_harness_and_nothing_else() {
    assert_eq!(
        prefetch_targets(ModelPrefetch::Effective, &OFFERED, Some(HarnessId::Mock)),
        vec![HarnessId::Mock]
    );
}

#[test]
fn opening_the_picker_asks_for_every_offered_harness() {
    let targets = prefetch_targets(
        ModelPrefetch::AllOffered,
        &OFFERED,
        Some(HarnessId::ClaudeCode),
    );
    assert_eq!(targets, OFFERED.to_vec());
}

#[test]
fn a_harness_outside_the_offered_set_is_still_asked_for() {
    assert_eq!(
        prefetch_targets(ModelPrefetch::Effective, &[], Some(HarnessId::Codex)),
        vec![HarnessId::Codex]
    );
    assert_eq!(
        prefetch_targets(
            ModelPrefetch::AllOffered,
            &[HarnessId::Mock],
            Some(HarnessId::Codex)
        ),
        vec![HarnessId::Mock, HarnessId::Codex]
    );
}

#[test]
fn nothing_is_asked_for_when_there_is_nothing_to_show() {
    assert!(prefetch_targets(ModelPrefetch::Effective, &[], None).is_empty());
    assert!(prefetch_targets(ModelPrefetch::AllOffered, &[], None).is_empty());
}

#[test]
fn the_effective_harness_is_not_requested_twice() {
    assert_eq!(
        prefetch_targets(ModelPrefetch::AllOffered, &OFFERED, Some(HarnessId::Codex)),
        OFFERED.to_vec()
    );
}

use xlindisk::model::ids::{SessionId, SourceId};
use xlindisk::presets::duplicate_plan;

#[test]
fn the_duplicate_preset_type_checks() {
    assert!(duplicate_plan(SourceId(0), SessionId(0)).validate().is_ok());
}

use std::collections::HashSet;

use raidsim::gear::{GearKind, GearTable};

#[test]
fn gear_kind_all_covers_every_variant() {
    let unique: HashSet<GearKind> = GearKind::ALL.into_iter().collect();

    assert_eq!(unique.len(), GearTable::TOTAL_GEARS_COUNT);
}

//! Restoring a saved split layout: the split actions to fire, in order.

use vstd::prelude::*;

verus! {

/// The direction of split `i`: the saved per-split direction when there is
/// one, else horizontal. An empty list means every split uses `horizontal`.
pub open spec fn split_horizontal(horizontal: bool, directions: Seq<bool>, i: int) -> bool {
    if directions.len() == 0 {
        horizontal
    } else if i < directions.len() {
        directions[i]
    } else {
        true
    }
}

/// The window action of a split in the given direction.
pub open spec fn split_action_name(horizontal: bool) -> Seq<char> {
    if horizontal {
        "win.split-horizontal"@
    } else {
        "win.split-vertical"@
    }
}

/// The actions that restore a layout: none when the layout is not split,
/// else one per split (`extra_splits + 1` of them), each in its saved
/// direction.
pub fn layout_actions(is_split: bool, extra_splits: usize, horizontal: bool, split_directions: &Vec<bool>) -> (actions: Vec<String>)
    requires
        extra_splits < usize::MAX,
    ensures
        !is_split ==> actions@.len() == 0,
        is_split ==> actions@.len() == extra_splits + 1 && forall|i: int|
            0 <= i <= extra_splits ==> #[trigger] actions@[i]@ == split_action_name(
                split_horizontal(horizontal, split_directions@, i),
            ),
{
    let mut actions: Vec<String> = Vec::new();
    if !is_split {
        return actions;
    }
    let mut i: usize = 0;
    while i <= extra_splits
        invariant
            extra_splits < usize::MAX,
            i <= extra_splits + 1,
            actions@.len() == i,
            forall|k: int|
                0 <= k < i ==> #[trigger] actions@[k]@ == split_action_name(
                    split_horizontal(horizontal, split_directions@, k),
                ),
        decreases extra_splits + 1 - i,
    {
        let h = if split_directions.len() == 0 {
            horizontal
        } else if i < split_directions.len() {
            split_directions[i]
        } else {
            true
        };
        if h {
            actions.push(String::from_str("win.split-horizontal"));
        } else {
            actions.push(String::from_str("win.split-vertical"));
        }
        i = i + 1;
    }
    actions
}

} // verus!

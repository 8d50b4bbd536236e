use sig_agg::params::{
    TWEAK_SEPARATOR_FOR_CHAIN_HASH, TWEAK_SEPARATOR_FOR_MESSAGE_HASH, TWEAK_SEPARATOR_FOR_TREE_HASH,
};
use sig_agg::tweak::PoseidonTweak;

fn tree(level: u8, pos_in_level: u32) -> PoseidonTweak {
    PoseidonTweak::Tree {
        level,
        pos_in_level,
    }
}

fn chain(epoch: u32, chain_index: u8, pos_in_chain: u8) -> PoseidonTweak {
    PoseidonTweak::Chain {
        epoch,
        chain_index,
        pos_in_chain,
    }
}

#[test]
fn separators_are_distinct() {
    assert_ne!(TWEAK_SEPARATOR_FOR_CHAIN_HASH, TWEAK_SEPARATOR_FOR_TREE_HASH);
    assert_ne!(TWEAK_SEPARATOR_FOR_CHAIN_HASH, TWEAK_SEPARATOR_FOR_MESSAGE_HASH);
    assert_ne!(TWEAK_SEPARATOR_FOR_TREE_HASH, TWEAK_SEPARATOR_FOR_MESSAGE_HASH);
}

#[test]
fn tree_tweaks_pack_level_and_position() {
    assert_eq!(tree(0, 0).to_field_elements::<2>(), [1, 0]);
    assert_eq!(tree(0, 5).to_field_elements::<2>(), [1281, 0]);
    assert_eq!(tree(1, 0).to_field_elements::<2>(), [67108349, 516]);
    assert_eq!(tree(32, 0).to_field_elements::<2>(), [16760704, 16513]);
    assert_eq!(tree(7, 123456).to_field_elements::<2>(), [501363173, 3612]);
    assert_eq!(
        tree(255, u32::MAX).to_field_elements::<2>(),
        [134085369, 132104]
    );
}

#[test]
fn chain_tweaks_pack_epoch_chain_and_position() {
    assert_eq!(chain(0, 0, 0).to_field_elements::<2>(), [0, 0]);
    assert_eq!(chain(0, 0, 1).to_field_elements::<2>(), [256, 0]);
    assert_eq!(chain(5, 162, 1).to_field_elements::<2>(), [94503168, 0]);
    assert_eq!(chain(10, 3, 2).to_field_elements::<2>(), [167969280, 0]);
    assert_eq!(
        chain(u32::MAX, 255, 255).to_field_elements::<2>(),
        [234616560, 33818640]
    );
}

#[test]
fn tweaks_of_other_widths() {
    assert_eq!(tree(1, 0).to_field_elements::<0>().len(), 0);
    assert_eq!(tree(1, 0).to_field_elements::<1>(), [67108349]);
    assert_eq!(tree(1, 0).to_field_elements::<3>(), [67108349, 516, 0]);
    assert_eq!(
        chain(u32::MAX, 255, 255).to_field_elements::<3>(),
        [234616560, 33818640, 0]
    );
}

#[test]
fn a_tree_tweak_never_equals_a_chain_tweak() {
    for level in [0u8, 1, 31, 32, 255] {
        for position in [0u32, 1, 2, 255, 256, 65536, u32::MAX] {
            let left = tree(level, position).to_field_elements::<2>();
            for epoch in [0u32, 1, position, position >> 16, u32::MAX] {
                for chain_index in [0u8, 1, level, 162, 255] {
                    for step in [0u8, 1, 2, 255] {
                        let right = chain(epoch, chain_index, step).to_field_elements::<2>();
                        assert_ne!(left, right);
                    }
                }
            }
        }
    }
}

#[test]
fn distinct_tweaks_have_distinct_elements() {
    let tweaks = [
        tree(0, 0),
        tree(0, 1),
        tree(1, 0),
        tree(1, 1),
        tree(0, u32::MAX),
        tree(255, 0),
        chain(0, 0, 0),
        chain(0, 0, 1),
        chain(0, 1, 0),
        chain(1, 0, 0),
        chain(u32::MAX, 0, 0),
    ];
    for (i, first) in tweaks.iter().enumerate() {
        for (j, second) in tweaks.iter().enumerate() {
            assert_eq!(
                first.to_field_elements::<2>() == second.to_field_elements::<2>(),
                i == j
            );
        }
    }
}

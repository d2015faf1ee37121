use forest_vm::error::ApplyError;
use forest_vm::identifiers::Address;
use fvm_shared::address::{set_current_network, Network};

#[test]
fn miner_is_named_as_on_the_network_of_the_process() {
    let error = ApplyError::Reward {
        miner: Address { bytes: vec![0, 0xe8, 0x07] },
        error: "boom".to_string(),
    };
    set_current_network(Network::Mainnet);
    assert_eq!(error.describe(), "failed to apply reward message for miner f01000: boom");
    set_current_network(Network::Testnet);
    assert_eq!(error.describe(), "failed to apply reward message for miner t01000: boom");
}

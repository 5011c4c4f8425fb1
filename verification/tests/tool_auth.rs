use hacc::gfh::{CtM1Key, GfhHeader, GfhToolAuth, GfhType};

fn key() -> CtM1Key {
    CtM1Key::new(&[1, 0, 1], &[0xABCD; 4], 7, 0)
}

fn tool_auth() -> GfhToolAuth {
    GfhToolAuth {
        header: GfhHeader::new(GfhType::ToolAuth, 1944),
        cust_name: [0u8; 32],
        attr: 0,
        brom_verified_num: 0,
        da_hash_num: 0,
        da_hash: [[0u8; 32]; 10],
        sbc_public_key: key(),
        sla_public_key: key(),
        daa_public_key: key(),
    }
}

#[test]
fn tool_auth_customer_name_round_trip() {
    let mut t = tool_auth();
    assert_eq!(t.customer_name(), "");
    t.set_customer_name("Acme Phones");
    assert_eq!(t.customer_name(), "Acme Phones");
    let long = "a".repeat(32);
    t.set_customer_name(&long);
    assert_eq!(t.customer_name(), long);
    t.set_customer_name("é");
    assert_eq!(t.customer_name(), "é");
}

#[test]
fn tool_auth_customer_name_cut_and_fallback() {
    let mut t = tool_auth();
    t.set_customer_name(&"b".repeat(40));
    assert_eq!(t.customer_name(), "b".repeat(32));
    t.cust_name[0] = 0xFF;
    assert_eq!(t.customer_name(), "MTK");
}

#[test]
fn ct_m1_key_lengths() {
    let k = key();
    assert_eq!(k.e_len(), 6);
    assert_eq!(k.n_len(), 8);
    assert_eq!(k.e_key(), &[1, 0, 1]);
    assert_eq!(k.n_key(), &[0xABCD; 4]);
    assert_eq!(k.m_coeff(), 7);
}

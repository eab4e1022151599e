use sennaar::ident::{Identifier, InternError, Interner, RenameError};

#[test]
fn intern_same_text_twice_yields_equal_handles() {
    let mut table = Interner::new();
    let a = table.intern("VkDevice").unwrap();
    let b = table.intern("VkDevice").unwrap();
    assert_eq!(a, b);
    let c = table.intern("VkInstance").unwrap();
    assert_ne!(a, c);
    assert_eq!(a.original(&table), "VkDevice");
    assert_eq!(c.original(&table), "VkInstance");
}

#[test]
fn intern_rejects_reserved_separator() {
    let mut table = Interner::new();
    let r = table.intern("bad:name");
    assert!(matches!(r, Err(InternError::ReservedSeparator)));
    assert_eq!(table.len(), 0);
}

#[test]
fn rename_is_monotonic_and_set_once() {
    let mut table = Interner::new();
    let id = table.intern("vkCreateDevice").unwrap();
    assert!(id.renamed(&table).is_none());
    assert_eq!(id.value(&table), "vkCreateDevice");

    assert!(id.try_rename(&mut table, "createDevice").is_ok());
    assert_eq!(id.renamed(&table), Some("createDevice"));
    assert_eq!(id.value(&table), "createDevice");
    assert_eq!(id.original(&table), "vkCreateDevice");

    assert!(id.try_rename(&mut table, "createDevice").is_ok());

    match id.try_rename(&mut table, "somethingElse") {
        Err(RenameError::Conflict { current, requested }) => {
            assert_eq!(current, "createDevice");
            assert_eq!(requested, "somethingElse");
        }
        other => panic!("expected a conflict, got {:?}", other),
    }
    assert_eq!(id.original(&table), "vkCreateDevice");
    assert_eq!(id.renamed(&table), Some("createDevice"));
}

#[test]
fn rename_rejects_reserved_separator() {
    let mut table = Interner::new();
    let id = table.intern("name").unwrap();
    assert!(matches!(
        id.try_rename(&mut table, "a:b"),
        Err(RenameError::ReservedSeparator)
    ));
    assert!(id.renamed(&table).is_none());
}

#[test]
fn serialization_round_trips_unrenamed() {
    let mut table = Interner::new();
    let id = table.intern("VkResult").unwrap();
    let text = id.serialize(&table);
    assert_eq!(text, "VkResult");
    let back = Identifier::deserialize(&mut table, &text).unwrap();
    assert_eq!(back, id);
    assert_eq!(back.original(&table), "VkResult");
    assert!(back.renamed(&table).is_none());
}

#[test]
fn serialization_round_trips_renamed() {
    let mut table = Interner::new();
    let id = table.intern("VkResult").unwrap();
    id.try_rename(&mut table, "Result").unwrap();
    let text = id.serialize(&table);
    assert_eq!(text, "VkResult:Result");

    let back = Identifier::deserialize(&mut table, &text).unwrap();
    assert_eq!(back, id);
    assert_eq!(back.original(&table), "VkResult");
    assert_eq!(back.renamed(&table), Some("Result"));

    let mut fresh = Interner::new();
    let re = Identifier::deserialize(&mut fresh, &text).unwrap();
    assert_eq!(re.original(&fresh), "VkResult");
    assert_eq!(re.renamed(&fresh), Some("Result"));
}

#[test]
fn deserialization_surfaces_rename_conflicts() {
    let mut table = Interner::new();
    let id = table.intern("VkResult").unwrap();
    id.try_rename(&mut table, "Result").unwrap();
    let r = Identifier::deserialize(&mut table, "VkResult:Other");
    assert!(matches!(r, Err(RenameError::Conflict { .. })));
}

#[test]
fn reset_clears_the_table() {
    let mut table = Interner::new();
    table.intern("a").unwrap();
    table.intern("b").unwrap();
    sennaar::ident::reset_identifier_renames(&mut table);
    assert_eq!(table.len(), 0);
}

#[test]
fn identifiers_order_by_original_text() {
    let mut table = Interner::new();
    let alpha = table.intern("alpha").unwrap();
    let beta = table.intern("beta").unwrap();
    let alp = table.intern("alp").unwrap();
    assert!(alpha.lt(beta, &table));
    assert!(!beta.lt(alpha, &table));
    assert!(alp.lt(alpha, &table));
    assert!(!alpha.lt(alpha, &table));
}

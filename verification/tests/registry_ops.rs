use sennaar::entity::{Import, OpaqueTypedef, Param};
use sennaar::ident::Interner;
use sennaar::rawtype::{PointerType, Type};
use sennaar::registry::{IdMap, Registry, RegistryBase, RegistryTE};

#[test]
fn id_map_insert_get_and_replace() {
    let mut table = Interner::new();
    let a = table.intern("A").unwrap();
    let b = table.intern("B").unwrap();
    let mut m: IdMap<u64> = IdMap::new();
    m.insert(a, 1);
    m.insert(b, 2);
    assert_eq!(m.len(), 2);
    assert_eq!(m.get(a), Some(&1));
    m.insert(a, 3);
    assert_eq!(m.len(), 2);
    assert_eq!(m.get(a), Some(&3));
    assert_eq!(m.get(b), Some(&2));
}

#[test]
fn id_map_merge_lets_the_newcomer_win() {
    let mut table = Interner::new();
    let a = table.intern("A").unwrap();
    let b = table.intern("B").unwrap();
    let c = table.intern("C").unwrap();
    let mut m: IdMap<u64> = IdMap::new();
    m.insert(a, 1);
    m.insert(b, 2);
    let mut other: IdMap<u64> = IdMap::new();
    other.insert(b, 20);
    other.insert(c, 30);
    m.extend(other);
    assert_eq!(m.get(a), Some(&1));
    assert_eq!(m.get(b), Some(&20));
    assert_eq!(m.get(c), Some(&30));
}

#[test]
fn merge_base_keeps_the_first_import_per_name() {
    let mut table = Interner::new();
    let core = table.intern("core").unwrap();
    let extra = table.intern("extra").unwrap();
    let mut left = RegistryBase::new("left".to_string());
    left.add_import(Import { name: core, version: Some("1".to_string()), depend: true });
    let mut right = RegistryBase::new("right".to_string());
    right.add_import(Import { name: core, version: Some("2".to_string()), depend: false });
    right.add_import(Import { name: extra, version: None, depend: false });
    let o = table.intern("Opaque").unwrap();
    right.opaque_typedefs.insert(o, OpaqueTypedef::new(o));
    left.merge_base_with(right);
    assert_eq!(left.name, "left");
    assert_eq!(left.imports.len(), 2);
    assert_eq!(left.imports[0].version, Some("1".to_string()));
    assert!(left.opaque_typedefs.get(o).is_some());
}

#[test]
fn sanitize_fix_aligns_nullability_with_optionality() {
    let mut table = Interner::new();
    let p = table.intern("p").unwrap();
    let int_ref = Type::identifier(table.intern("int").unwrap());
    let ty = Type::PointerType(Box::new(PointerType {
        pointee: int_ref,
        is_const: false,
        pointer_to_one: false,
        nullable: false,
    }));
    let mut param = Param::new(p, ty, true, None);
    param.sanitize_fix();
    match &param.ty {
        Type::PointerType(pt) => assert!(pt.nullable),
        _ => panic!("expected a pointer type"),
    }
    param.sanitize();
}

#[test]
fn registries_start_empty() {
    let r = Registry::new("unit".to_string());
    assert_eq!(r.base.name, "unit");
    assert_eq!(r.as_base().commands.len(), 0);
    let te: RegistryTE<u32> = RegistryTE::new("typed".to_string());
    assert_eq!(te.ext, 0);
    let te2 = RegistryTE::new_with_ext("typed".to_string(), 7u8);
    assert_eq!(te2.ext, 7);
    te2.sanitize();
}

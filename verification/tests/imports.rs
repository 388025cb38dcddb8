use fixlang::ast::import::{is_accessible, ImportStatement, ImportTreeNode};
use fixlang::ast::name::FullName;

fn name_of(node: &ImportTreeNode) -> (u8, String) {
    match node {
        ImportTreeNode::Any(_) => (0, String::new()),
        ImportTreeNode::Symbol(n, _) => (1, n.clone()),
        ImportTreeNode::TypeOrTrait(n, _) => (2, n.clone()),
        ImportTreeNode::NameSpace(n, _, _) => (3, n.clone()),
    }
}

#[test]
fn an_added_import_makes_its_name_accessible() {
    let mut imports: Vec<ImportStatement> = vec![];
    let name = FullName::from_strs(&["Lib", "Sub"], "f");
    assert!(!is_accessible(&imports, &name));
    ImportStatement::add_import(&mut imports, "Main".to_string(), name.clone());
    assert!(is_accessible(&imports, &name));
    // Only that name: a sibling stays out of reach.
    let sibling = FullName::from_strs(&["Lib", "Sub"], "g");
    assert!(!is_accessible(&imports, &sibling));
    // A second name of the same module joins the same statement.
    let other = FullName::from_strs(&["Lib"], "Vec");
    ImportStatement::add_import(&mut imports, "Main".to_string(), other.clone());
    assert_eq!(imports.len(), 1);
    assert!(is_accessible(&imports, &other));
    assert!(is_accessible(&imports, &name));
    // Adding an accessible name again changes what is accessible in no way.
    ImportStatement::add_import(&mut imports, "Main".to_string(), name.clone());
    assert!(is_accessible(&imports, &name));
    assert!(!is_accessible(&imports, &sibling));
}

#[test]
fn an_import_of_everything_covers_every_name_of_the_module() {
    let stmt = ImportStatement::implicit_std_import("Main".to_string());
    assert_eq!(stmt.module_name, "Std");
    assert!(stmt.is_accessible(&FullName::from_strs(&["Std"], "Array")));
    assert!(stmt.is_accessible(&FullName::from_strs(&["Std", "Array"], "fill")));
    assert!(!stmt.is_accessible(&FullName::from_strs(&["Lib"], "Array")));
    let own = ImportStatement::implicit_self_import("Main".to_string());
    assert!(own.is_accessible(&FullName::from_strs(&["Main"], "main")));
}

#[test]
fn a_hidden_name_is_not_accessible() {
    let mut stmt = ImportStatement::implicit_std_import("Main".to_string());
    stmt.hiding.push(ImportTreeNode::Symbol("undefined".to_string(), None));
    assert!(!stmt.is_accessible(&FullName::from_strs(&["Std"], "undefined")));
    assert!(stmt.is_accessible(&FullName::from_strs(&["Std"], "fix")));
}

#[test]
fn import_to_use_brings_in_one_name() {
    let stmt = ImportStatement::import_to_use("Main".to_string(), FullName::from_strs(&["Std", "Array"], "fill"));
    assert_eq!(stmt.module_name, "Std");
    assert!(stmt.is_accessible(&FullName::from_strs(&["Std", "Array"], "fill")));
    assert!(!stmt.is_accessible(&FullName::from_strs(&["Std", "Array"], "push_back")));
    assert!(!stmt.is_accessible(&FullName::from_strs(&["Std"], "fill")));
}

#[test]
fn sorting_orders_by_kind_then_name_and_sorts_namespaces_within() {
    let mut nodes = vec![
        ImportTreeNode::NameSpace(
            "B".to_string(),
            vec![
                ImportTreeNode::Symbol("z".to_string(), None),
                ImportTreeNode::Symbol("a".to_string(), None),
            ],
            None,
        ),
        ImportTreeNode::TypeOrTrait("Vec".to_string(), None),
        ImportTreeNode::Symbol("map".to_string(), None),
        ImportTreeNode::NameSpace("A".to_string(), vec![], None),
        ImportTreeNode::Any(None),
        ImportTreeNode::Symbol("fold".to_string(), None),
        ImportTreeNode::TypeOrTrait("Array".to_string(), None),
    ];
    ImportTreeNode::sort(&mut nodes);
    let keys: Vec<(u8, String)> = nodes.iter().map(name_of).collect();
    assert_eq!(
        keys,
        vec![
            (0, "".to_string()),
            (1, "fold".to_string()),
            (1, "map".to_string()),
            (2, "Array".to_string()),
            (2, "Vec".to_string()),
            (3, "A".to_string()),
            (3, "B".to_string()),
        ]
    );
    match &nodes[6] {
        ImportTreeNode::NameSpace(_, items, _) => {
            let inner: Vec<(u8, String)> = items.iter().map(name_of).collect();
            assert_eq!(inner, vec![(1, "a".to_string()), (1, "z".to_string())]);
        }
        _ => panic!("a namespace sorts last"),
    }
}

#[test]
fn sorting_statements_orders_them_by_module_and_keeps_ties_in_order() {
    let mut a1 = ImportStatement::implicit_std_import("Main".to_string());
    a1.module_name = "Lib".to_string();
    a1.importer = "first".to_string();
    let b = ImportStatement::implicit_std_import("Main".to_string());
    let mut a2 = ImportStatement::implicit_std_import("Main".to_string());
    a2.module_name = "Lib".to_string();
    a2.importer = "second".to_string();
    let mut stmts = vec![b, a1, a2];
    ImportStatement::sort(&mut stmts);
    let order: Vec<(String, String)> = stmts.iter().map(|s| (s.module_name.clone(), s.importer.clone())).collect();
    assert_eq!(
        order,
        vec![
            ("Lib".to_string(), "first".to_string()),
            ("Lib".to_string(), "second".to_string()),
            ("Std".to_string(), "Main".to_string()),
        ]
    );
}

#[test]
fn add_import_keeps_statements_that_already_reach_the_name() {
    let mut imports: Vec<ImportStatement> = vec![ImportStatement::implicit_std_import("Main".to_string())];
    let mut hiding = ImportStatement::import_to_use("Main".to_string(), FullName::from_strs(&["Lib"], "f"));
    hiding.hiding.push(ImportTreeNode::Symbol("g".to_string(), None));
    imports.push(hiding);
    // Already reachable through `Std::*`: nothing changes.
    ImportStatement::add_import(&mut imports, "Main".to_string(), FullName::from_strs(&["Std"], "fix"));
    assert_eq!(imports.len(), 2);
    assert_eq!(imports[0].items.len(), 1);
    // The only statement of `Lib` has a `hiding` clause, so a new statement is added.
    ImportStatement::add_import(&mut imports, "Main".to_string(), FullName::from_strs(&["Lib"], "h"));
    assert_eq!(imports.len(), 3);
    assert_eq!(imports[2].module_name, "Lib");
    assert!(imports[2].hiding.is_empty());
    // The new statement carries no `hiding` clause, so the next name of `Lib` joins it.
    ImportStatement::add_import(&mut imports, "Main".to_string(), FullName::from_strs(&["Lib"], "k"));
    assert_eq!(imports.len(), 3);
    assert_eq!(imports[2].items.len(), 2);
    assert_eq!(imports[1].items.len(), 1);
}

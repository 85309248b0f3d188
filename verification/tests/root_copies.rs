use peachili::lexer::tokenize;
use peachili::option::BuildOption;
use peachili::parse_module::parse;
use peachili::ptype::PTypeKind;
use peachili::root::ASTRoot;

fn root_of(src: &str) -> ASTRoot {
    let opt = BuildOption::default();
    let (tokens, errors) = tokenize(&opt, src.to_string());
    assert!(errors.is_empty());
    let (root, errors) = parse(&opt, "main", 0, tokens).unwrap();
    assert!(errors.is_empty());
    root
}

#[test]
fn copied_functions_hold_the_same_contents() {
    let root = root_of("func g() noreturn { } func f(a int64) int64 { declare x uint64; x64::write(\"hi\"); return a; }");
    let copies = root.copy_functions();
    assert_eq!(copies.len(), 2);
    for name in ["f", "g"] {
        let orig = root.func_map.get(name).unwrap();
        let copy = copies.get(name).unwrap();
        assert_eq!(copy.name, orig.name);
        assert_eq!(copy.stmts, orig.stmts);
        assert_eq!(copy.locals, orig.locals);
        assert_eq!(copy.strings, orig.strings);
        assert_eq!(copy.return_type, orig.return_type);
        assert_eq!(copy.args, orig.args);
        assert_eq!(copy.position, orig.position);
    }
    assert_eq!(copies.get("f").unwrap().locals.len(), 2);
}

#[test]
fn copied_typedefs_hold_the_same_types() {
    let root = root_of("pubtype MyInt = int64; pubtype Flag = boolean; func main() noreturn { }");
    let copies = root.copy_typedefs();
    assert_eq!(copies.len(), 2);
    assert_eq!(copies.get("MyInt").unwrap().kind, PTypeKind::INT64);
    assert_eq!(copies.get("Flag").unwrap().kind, PTypeKind::BOOLEAN);
    assert_eq!(copies.get("MyInt").unwrap(), root.type_map.get("MyInt").unwrap());
}

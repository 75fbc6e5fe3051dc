use mini_pascal::address::Address;
use mini_pascal::codegenvisitor::CodeGenVisitor;
use mini_pascal::parser::build_parser;
use mini_pascal::scanner::build_scanner;
use mini_pascal::source::create_source;
use mini_pascal::symboltable::get_symbol_table;
use mini_pascal::typefolder::TypeFolder;
use mini_pascal::visitor::TypedVisitor;

fn generate(text: &str) -> String {
    let mut parser = build_parser(build_scanner(create_source(String::from(text))));
    let ast = parser.program().unwrap();
    assert!(parser.errors.is_empty(), "{:?}", parser.errors);
    let mut folder = TypeFolder::new();
    let mut table = get_symbol_table();
    let typed = folder.fold_ast(&ast, &mut table);
    assert!(folder.get_errors().is_empty(), "{:?}", folder.get_errors());
    let mut generator = CodeGenVisitor::new();
    generator.visit_ast(&typed.unwrap());
    generator.get_output()
}

#[test]
fn register_names() {
    assert_eq!(Address::new_simple(0).register_format(), "r0");
    assert_eq!(Address::new_simple(1234567890).register_format(), "r1234567890");
    assert_eq!(Address::new_simple(u64::MAX).register_format(), "r18446744073709551615");
    let indexed = Address::new_indexed(Address::new_simple(7), Address::new_simple(12));
    assert_eq!(indexed.register_format(), "r7[r12]");
    assert_eq!(indexed.as_u64(), 7);
    let nested = Address::new_indexed(indexed, indexed);
    assert_eq!(nested.register_format(), "r7[r7]");
}

#[test]
fn a_fresh_generator_has_written_nothing() {
    assert_eq!(CodeGenVisitor::new().get_output(), "");
}

#[test]
fn assignment_of_a_literal() {
    let output = generate("program p;\nbegin\n  var x : integer;\n  x := 5;\nend.");
    assert_eq!(
        output,
        "int main() {\nint r0 = 0;\nint r1 = 1;\nint r3;\nint r4;\nr4 = 5;\nr3 = r4;\nreturn 0;}\n"
    );
}

#[test]
fn the_runtime_comes_first() {
    let mut parser = build_parser(build_scanner(create_source(String::from(
        "program p;\nbegin\nend.",
    ))));
    let ast = parser.program().unwrap();
    let mut folder = TypeFolder::new();
    let mut table = get_symbol_table();
    let typed = folder.fold_ast(&ast, &mut table).unwrap();
    let mut generator = CodeGenVisitor::new();
    generator.set_runtime(String::from("#include <stdio.h>\n"));
    generator.visit_ast(&typed);
    assert_eq!(
        generator.get_output(),
        "#include <stdio.h>\nint main() {\nint r0 = 0;\nint r1 = 1;\nreturn 0;}\n"
    );
}

#[test]
fn arithmetic_and_comparison() {
    let output = generate(
        "program p;\nbegin\n  var b : boolean;\n  b := 1 + 2 < 4;\nend.",
    );
    assert_eq!(
        output,
        "int main() {\nint r0 = 0;\nint r1 = 1;\nshort r3;\n\
         int r4;\nr4 = 1;\nint r5;\nr5 = 2;\nint r6;\nint r7;\nr7 = 4;\nshort r8;\n\
         r6 = r4 + r5;\nr8 = r6 < r7;\nr3 = r8;\nreturn 0;}\n"
    );
}

#[test]
fn strings_are_copied_and_joined_in_memory_of_their_own() {
    let output = generate(
        "program p;\nbegin\n  var s : string;\n  s := \"a\" + \"bc\";\nend.",
    );
    assert_eq!(
        output,
        "int main() {\nint r0 = 0;\nint r1 = 1;\nchar *r3;\nint r3_size = 512;\n\
         char *r4;\nint r4_size = 3;\nchar *r5;\nint r5_size = 4;\nchar *r6;\n\
         r4 = (char*) malloc(3 * sizeof(char));\nstrcpy(r4, \"a\");\n\
         r5 = (char*) malloc(4 * sizeof(char));\nstrcpy(r5, \"bc\");\n\
         r6 = (char *) malloc(512);\nstrcpy(r6,r4);\nstrcat(r6,r5);\n\
         r3 = r6;\nreturn 0;}\n"
    );
}

#[test]
fn if_and_while_take_two_labels_each() {
    let output = generate(
        "program p;\nbegin\n  var i : integer;\n  while i < 3 do i := i + 1;\n  \
         if i = 3 then writeln(i) else assert(false);\nend.",
    );
    assert_eq!(
        output,
        "int main() {\nint r0 = 0;\nint r1 = 1;\nint r3;\n\
         int r4;\nr4 = 3;\nshort r5;\nint r6;\nr6 = 1;\nint r7;\n\
         int r8;\nr8 = 3;\nshort r9;\n\
         label0:\nr5 = r3 < r4;\nif (r5 != 1 ) { goto label1; }\nr7 = r3 + r6;\nr3 = r7;\n\
         goto label0;label1:\n\
         r9 = r3 == r8;\nif (r9 != 1 ) { goto label2; }\n\
         printf(\" %d\",  r3);printf(\"\\n\");\n\
         goto label3;\nlabel2:\nmp_assert(r0, \"On line 5\\n\");\nlabel3:\n(void)0;\n\
         return 0;}\n"
    );
}

#[test]
fn arrays_get_memory_and_a_size() {
    let output = generate(
        "program p;\nbegin\n  var a : array[2] of integer;\n  var n : integer;\n  \
         a[0] := 7;\n  n := a.size;\n  read(n);\nend.",
    );
    assert_eq!(
        output,
        "int main() {\nint r0 = 0;\nint r1 = 1;\n\
         int r3;\nr3 = 2;\nint *r4;\nint r4_size = r3;\nint r5;\n\
         int r7;\nr7 = 7;\nint r6;\nr6 = 0;\nint r8;\n\
         r4 = (int*) malloc(r3 * sizeof(int));\nr4[r6] = r7;\n\
         r8 = r4_size;\nr5 = r8;\nscanf(\" %d\",  &r5);\nreturn 0;}\n"
    );
}

#[test]
fn subroutines_come_before_main() {
    let output = generate(
        "program p;\n\
         procedure show(n : integer, s : string);\nbegin\n  writeln(n, s);\nend;\n\
         function twice(n : integer) : integer;\nbegin\n  return n * 2;\nend;\n\
         begin\n  show(twice(2), \"x\");\nend.",
    );
    assert_eq!(
        output,
        "void r3(int r4,char * r5) {\nint r5_size = 512;\n\
         printf(\" %d %s\",  r4, r5);printf(\"\\n\");\nreturn;\n}\n\
         int r6(int r7) {\nint r8;\nr8 = 2;\nint r9;\nr9 = r7 * r8;\nreturn r9;\n}\n\
         int main() {\nint r0 = 0;\nint r1 = 1;\n\
         int r10;\nr10 = 2;\nint r11;\nchar *r12;\nint r12_size = 3;\n\
         r11 = r6( r10);\nr12 = (char*) malloc(3 * sizeof(char));\nstrcpy(r12, \"x\");\n\
         r3( r11, r12);\nreturn 0;}\n"
    );
}

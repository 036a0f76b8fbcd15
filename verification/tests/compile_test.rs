//! Tests of the lowering engine: scenarios from data declarations through
//! user-defined statements.
use ldpl::compiler::{compile, compile_type};
use ldpl::mangle::{mangle, mangle_sub, mangle_var};

#[test]
fn number_declaration_and_store() {
    let c = compile("DATA:\nx is number\nPROCEDURE:\nstore 5 in x\n").unwrap();
    assert_eq!(c.vars[1], "ldpl_number VAR_X = 0;\n\n");
    assert_eq!(c.main[0], "    VAR_X = 5;\n");
}

#[test]
fn numeric_literal_to_text_coercion() {
    let c = compile("DATA:\nname is text\nPROCEDURE:\nstore 42 in name\n").unwrap();
    assert_eq!(c.vars[1], "chText VAR_NAME = \"\";\n\n");
    assert_eq!(c.main[0], "    VAR_NAME = \"42\";\n");
}

#[test]
fn push_to_list() {
    let c = compile("DATA:\nxs is number list\nPROCEDURE:\npush 1 to xs\npush 2 to xs\n")
        .unwrap();
    assert_eq!(c.main[0], "    VAR_XS.inner_collection.push_back(1);\n");
    assert_eq!(c.main[1], "    VAR_XS.inner_collection.push_back(2);\n");
}

#[test]
fn or_test_lowering() {
    let src = "DATA:\nx is number\nPROCEDURE:\nif x is equal to 1 or x is equal to 2 then\ndisplay x\nend if\n";
    let c = compile(src).unwrap();
    assert!(c.main[0].starts_with("    if ((VAR_X == 1) || (VAR_X == 2)) {\n"));
    assert!(c.main[0].ends_with("    }\n"));
}

#[test]
fn sub_procedure_and_call() {
    let src = "PROCEDURE:\nsub-procedure greet\nparameters:\nwho is text\nprocedure:\ndisplay who\nend sub-procedure\ncall greet with \"world\"\n";
    let c = compile(src).unwrap();
    assert!(c.subs[0].starts_with("void SUBPR_GREET(chText& VAR_WHO) {\n"));
    assert!(c.subs[0].contains("cout << VAR_WHO << flush;\n"));
    let cpp = c.to_cpp().unwrap();
    assert!(cpp.starts_with("void SUBPR_GREET();\n"));
    assert_eq!(
        c.main[0],
        "    chText LPVAR_0 = \"world\";\n    SUBPR_GREET(LPVAR_0);\n"
    );
}

#[test]
fn user_statement_resolution() {
    let src = "DATA:\nname is text\nPROCEDURE:\nsub-procedure say2\nparameters:\na is text\nb is text\nend sub-procedure\ncreate statement \"say $ to $\" executing say2\nsay \"hi\" to name\n";
    let c = compile(src).unwrap();
    assert_eq!(
        c.main[0],
        "    chText LPVAR_0 = \"hi\";\n    SUBPR_SAY2(LPVAR_0, VAR_NAME);\n"
    );
}

#[test]
fn break_outside_loop_is_refused() {
    let err = compile("PROCEDURE:\nbreak\n").unwrap_err();
    assert!(err.details.contains("can't be used without FOR/WHILE loop"));
    let src = "DATA:\nx is number\nPROCEDURE:\nwhile x is greater than 0 do\nbreak\nrepeat\n";
    let c = compile(src).unwrap();
    assert!(c.main[0].starts_with("    while (VAR_X > 0) {\n"));
    assert!(c.main[0].contains("        break;\n"));
}

#[test]
fn lookup_nesting_by_type() {
    let src = "DATA:\nxs is number list\nn is number\nPROCEDURE:\nstore xs:5 in n\n";
    let c = compile(src).unwrap();
    assert_eq!(c.main[0], "    VAR_N = VAR_XS[5];\n");

    let src = "DATA:\na is number list\nb is number list\nn is number\nPROCEDURE:\nstore a:b:1 in n\n";
    let c = compile(src).unwrap();
    assert_eq!(c.main[0], "    VAR_N = VAR_A[VAR_B[1]];\n");

    let src = "DATA:\na is number list\nb is number\nn is number\nPROCEDURE:\nstore a:b:1 in n\n";
    let c = compile(src).unwrap();
    assert_eq!(c.main[0], "    VAR_N = VAR_A[VAR_B][1];\n");
}

#[test]
fn number_literal_normalization() {
    let c = compile("DATA:\nx is number\nPROCEDURE:\nstore -000.0 in x\nstore +3.14 in x\nstore 0.500 in x\nstore 0010 in x\n")
        .unwrap();
    assert_eq!(c.main[0], "    VAR_X = 0;\n");
    assert_eq!(c.main[1], "    VAR_X = 3.14;\n");
    assert_eq!(c.main[2], "    VAR_X = 0.5;\n");
    assert_eq!(c.main[3], "    VAR_X = 10;\n");
}

#[test]
fn mangling_rules() {
    assert_eq!(mangle("foo-bar"), "FOOc45_BAR");
    assert_eq!(mangle_sub("foo"), "SUBPR_FOO");
    assert_eq!(mangle_var("foo"), "VAR_FOO");
    // mangling folds case
    assert_eq!(mangle("foo-bar"), mangle("FOO-BAR"));
    assert_eq!(mangle("dots.in.name"), "DOTSc46_INc46_NAME");
}

#[test]
fn well_typed_output_has_no_unknown_type() {
    assert_eq!(compile_type("number"), "ldpl_number");
    assert_eq!(compile_type("TEXT"), "chText");
    assert_eq!(compile_type("number list"), "ldpl_list<ldpl_number>");
    assert_eq!(compile_type("text map"), "ldpl_map<chText>");
    assert_eq!(compile_type("no such type"), "UNKNOWN_TYPE");
    let src = "DATA:\nx is number\nname is text\nxs is text list\nm is number map\nPROCEDURE:\nstore 1 in x\n";
    let c = compile(src).unwrap();
    let cpp = c.to_cpp().unwrap();
    assert!(!cpp.contains("UNKNOWN_TYPE"));
}

#[test]
fn expected_definitions_must_empty() {
    // a closed program leaves nothing expected
    let src = "PROCEDURE:\nsub-procedure f\nend sub-procedure\ncall f\n";
    let c = compile(src).unwrap();
    assert!(c.expected_defs.is_empty());
    // calling before defining is fine, as long as the definition comes
    let src = "PROCEDURE:\nsub-procedure g\ncall f\nend sub-procedure\nsub-procedure f\nend sub-procedure\n";
    let c = compile(src).unwrap();
    assert!(c.expected_defs.is_empty());
    // a call that is never defined is a hard error
    let err = compile("PROCEDURE:\ncall nowhere\n").unwrap_err();
    assert!(err.details.contains("never defined"));
}

#[test]
fn for_each_over_map_takes_values() {
    let src = "DATA:\nm is number map\nv is number\nPROCEDURE:\nfor each v in m do\ndisplay v\nrepeat\n";
    let c = compile(src).unwrap();
    assert!(c.main[0].starts_with(
        "    for (auto& RVAR_0 : VAR_M.inner_collection) {\n        VAR_V = RVAR_0.second;\n"
    ));

    let src = "DATA:\nl is number list\nv is number\nPROCEDURE:\nfor each v in l do\ndisplay v\nrepeat\n";
    let c = compile(src).unwrap();
    assert!(c.main[0].starts_with(
        "    for (auto& RVAR_0 : VAR_L.inner_collection) {\n        VAR_V = RVAR_0;\n"
    ));
}

#[test]
fn lowering_is_deterministic() {
    let src = "DATA:\nx is number\nname is text\nPROCEDURE:\nstore 5 in x\nin name join \"a\" x\ndisplay name crlf\n";
    let a = compile(src).unwrap().to_cpp().unwrap();
    let b = compile(src).unwrap().to_cpp().unwrap();
    assert_eq!(a, b);
    assert!(!a.is_empty());
}

#[test]
fn duplicate_declaration_is_refused() {
    let err = compile("DATA:\nx is number\nx is text\nPROCEDURE:\n").unwrap_err();
    assert!(err.details.contains("Duplicate declaration"));
}

#[test]
fn return_outside_sub_is_refused() {
    let err = compile("PROCEDURE:\nreturn\n").unwrap_err();
    assert!(err.details.contains("RETURN can't be used outside"));
}

#[test]
fn redefining_a_sub_is_refused() {
    let src = "PROCEDURE:\nsub-procedure f\nend sub-procedure\nsub-procedure f\nend sub-procedure\n";
    let err = compile(src).unwrap_err();
    assert!(err.details.contains("Redefining existing SUB-PROCEDURE"));
}

#[test]
fn create_statement_needs_a_known_sub() {
    let err = compile("PROCEDURE:\ncreate statement \"say $\" executing nothere\n").unwrap_err();
    assert!(err.details.contains("unknown sub-procedure"));
}

#[test]
fn unknown_user_statement_is_refused() {
    let err = compile("PROCEDURE:\nfrobnicate everything\n").unwrap_err();
    assert!(err.details.contains("Unknown statement"));
}

#[test]
fn undeclared_variable_is_refused() {
    let err = compile("PROCEDURE:\nstore 5 in nowhere\n").unwrap_err();
    assert!(err.details.contains("No type found for"));
}

#[test]
fn store_quote_block() {
    let src = "DATA:\nname is text\nPROCEDURE:\nstore quote in name\nhello \"world\"\nsecond line\nend quote\n";
    let c = compile(src).unwrap();
    assert_eq!(
        c.main[0],
        "    VAR_NAME = \"hello \\\"world\\\"\\\n\\nsecond line\";\n"
    );
}

#[test]
fn solve_keeps_parentheses() {
    let src = "DATA:\nx is number\ny is number\nPROCEDURE:\nin x solve y * (x + 1)\n";
    let c = compile(src).unwrap();
    assert_eq!(c.main[0], "    VAR_X = VAR_Y * (VAR_X + 1);\n");
}

#[test]
fn text_operations_lower_to_runtime_calls() {
    let src = "DATA:\nt is text\nn is number\nPROCEDURE:\ntrim t in t\ncount \"a\" from t in n\nget length of t in n\n";
    let c = compile(src).unwrap();
    assert_eq!(c.main[0], "    VAR_T = trimCopy(VAR_T);\n");
    assert_eq!(c.main[1], "    VAR_N = utf8Count(VAR_T, \"a\");\n");
    assert_eq!(c.main[2], "    VAR_N = ((chText)VAR_T).size();\n");
}

#[test]
fn display_chains_cout() {
    let src = "DATA:\nx is number\nPROCEDURE:\ndisplay \"x is \" x crlf\n";
    let c = compile(src).unwrap();
    assert_eq!(
        c.main[0],
        "    cout << \"x is \" << VAR_X << \"\\n\" << flush;\n"
    );
}

#[test]
fn external_declarations_use_simple_mangling() {
    let src = "DATA:\nmy-var is external number\nPROCEDURE:\nstore 1 in my-var\n";
    let c = compile(src).unwrap();
    assert_eq!(c.vars[1], "extern ldpl_number MY_VAR;\n\n");
    assert_eq!(c.main[0], "    MY_VAR = 1;\n");
}

#[test]
fn goto_and_label_are_mangled() {
    let src = "PROCEDURE:\nlabel top\ngoto top\n";
    let c = compile(src).unwrap();
    assert_eq!(c.main[0], "label_TOP:\n");
    assert_eq!(c.main[1], "    goto label_TOP;\n");
}

#[test]
fn extension_and_flag_are_recorded() {
    let src = "extension \"helper.cpp\"\nflag \"-lm\"\nPROCEDURE:\nexit\n";
    let c = compile(src).unwrap();
    assert_eq!(c.exts, vec!["helper.cpp".to_string()]);
    assert_eq!(c.flags, vec!["-lm".to_string()]);
    assert_eq!(c.main[0], "    exit(0);\n");
}

#[test]
fn empty_program_compiles_to_the_bare_wrapper() {
    let c = compile("").unwrap();
    let cpp = c.to_cpp().unwrap();
    assert!(cpp.starts_with("ldpl_list<chText> VAR_ARGV;"));
    assert!(cpp.contains("int main(int argc, char* argv[]) {"));
    assert!(cpp.ends_with("    return 0;\n}\n"));
}

#[test]
fn unterminated_blocks_are_parse_errors() {
    let err = compile("DATA:\nx is number\nPROCEDURE:\nwhile x is equal to 1 do\ndisplay x\n")
        .unwrap_err();
    assert!(err.details.contains("missing REPEAT"));
    let err = compile("PROCEDURE:\nif 1 is equal to 1 then\n").unwrap_err();
    assert!(err.details.contains("missing END IF"));
}

#[test]
fn unterminated_text_is_a_parse_error() {
    let err = compile("PROCEDURE:\ndisplay \"oops\n").unwrap_err();
    assert!(err.details.contains("unterminated text literal"));
}

#[test]
fn else_branches_reopen_the_block() {
    let src = "DATA:\nx is number\nPROCEDURE:\nif x is equal to 1 then\ndisplay 1\nelse if x is equal to 2 then\ndisplay 2\nelse\ndisplay 3\nend if\n";
    let c = compile(src).unwrap();
    assert!(c.main[0].contains("    } else if (VAR_X == 2) {\n"));
    assert!(c.main[0].contains("    } else {\n"));
}

#[test]
fn for_loop_direction_follows_the_step() {
    let src = "DATA:\ni is number\nPROCEDURE:\nfor i from 0 to 10 step 1 do\ndisplay i\nrepeat\n";
    let c = compile(src).unwrap();
    assert!(c.main[0]
        .starts_with("    for(VAR_I = 0; 1 >= 0 ? VAR_I < 10 : VAR_I > 10; VAR_I += 1) {\n"));
}

#[test]
fn comparison_operators_lower_exactly() {
    let src = "DATA:\nx is number\nPROCEDURE:\nwhile x is greater than or equal to 2 and x is not equal to 9 do\ndisplay x\nrepeat\n";
    let c = compile(src).unwrap();
    assert!(c.main[0].starts_with("    while ((VAR_X >= 2) && (VAR_X != 9)) {\n"));
}

#[test]
fn user_statement_overloads_resolve_by_argument_type() {
    let src = "DATA:\nname is text\nn is number\nPROCEDURE:\nsub-procedure saytext\nparameters:\na is text\nend sub-procedure\nsub-procedure saynum\nparameters:\na is number\nend sub-procedure\ncreate statement \"shout $\" executing saytext\ncreate statement \"shout $\" executing saynum\nshout name\nshout n\n";
    let c = compile(src).unwrap();
    assert_eq!(c.main[0], "    SUBPR_SAYTEXT(VAR_NAME);\n");
    assert_eq!(c.main[1], "    SUBPR_SAYNUM(VAR_N);\n");
}

#[test]
fn ambiguous_user_statement_is_refused() {
    let src = "DATA:\nname is text\nhi is text\nPROCEDURE:\nsub-procedure s1\nparameters:\na is text\nend sub-procedure\nsub-procedure s2\nparameters:\na is text\nb is text\nend sub-procedure\ncreate statement \"say $ to $\" executing s2\ncreate statement \"say hi to $\" executing s1\nsay hi to name\n";
    let err = compile(src).unwrap_err();
    assert!(err.details.contains("Ambiguous statement"));
}

#[test]
fn arithmetic_and_text_statements_lower_exactly() {
    let src = "DATA:\nt is text\nn is number\nkeys is text list\nPROCEDURE:\nmodulo 7 by 3 in n\nfloor n\nreplace \"a\" from t with \"b\" in t\nsplit t by \",\" in keys\nsubstring t from 1 length 2 in t\nget index of \"a\" from t in n\nget character code of \"a\" in n\nget ascii character 65 in t\nget character at 0 from t in t\n";
    let c = compile(src).unwrap();
    assert_eq!(c.main[0], "    VAR_N = modulo(7, 3);\n");
    assert_eq!(c.main[1], "    VAR_N = floor(VAR_N);\n");
    assert_eq!(
        c.main[2],
        "    VAR_T = str_replace(((chText)VAR_T).str_rep(), ((chText)\"a\").str_rep(), ((chText)\"b\").str_rep());\n"
    );
    assert_eq!(c.main[3], "    VAR_KEYS = utf8_split_list(VAR_T, \",\");\n");
    assert_eq!(
        c.main[4],
        "    joinvar = VAR_T;\n    VAR_T = joinvar.substr(1, 2);\n"
    );
    assert_eq!(c.main[5], "    VAR_N = utf8GetIndexOf(VAR_T, \"a\");\n");
    assert_eq!(c.main[6], "    VAR_N = get_char_num(\"a\");\n");
    assert_eq!(c.main[7], "    VAR_T = (char)(65);\n");
    assert_eq!(c.main[8], "    VAR_T = charat(VAR_T, 0);\n");
}

#[test]
fn collection_and_io_statements_lower_exactly() {
    let src = "DATA:\nt is text\nn is number\nxs is number list\nm is number map\nkeys is text list\nPROCEDURE:\ndelete last element of xs\nget keys count of m in n\nget keys of m in keys\ncopy xs to xs\nclear xs\nwait 100 milliseconds\nload file \"f.txt\" in t\nwrite t to file \"o.txt\"\nexecute \"ls\"\nexecute \"ls\" and store output in t\nexecute \"ls\" and store exit code in n\naccept t\naccept n\naccept t until eof\njoin t and \"x\" in t\nin t join \"a\" n \"b\"\n";
    let c = compile(src).unwrap();
    assert_eq!(
        c.main[0],
        "    if(VAR_XS.inner_collection.size() > 0) VAR_XS.inner_collection.pop_back();\n"
    );
    assert_eq!(c.main[1], "    VAR_N = VAR_M.inner_collection.size();\n");
    assert_eq!(c.main[2], "    get_indices(VAR_KEYS, VAR_M);\n");
    assert_eq!(
        c.main[3],
        "    VAR_XS.inner_collection = VAR_XS.inner_collection;\n"
    );
    assert_eq!(c.main[4], "    VAR_XS.inner_collection.clear();\n");
    assert_eq!(
        c.main[5],
        "    std::this_thread::sleep_for(std::chrono::milliseconds((long int)100));\n"
    );
    assert_eq!(c.main[6], "    load_file(\"f.txt\", VAR_T);\n");
    assert_eq!(
        c.main[7],
        "    file_writing_stream.open(expandHomeDirectory(((chText)\"o.txt\").str_rep()), ios_base::out);\n    file_writing_stream << VAR_T;\n    file_writing_stream.close();\n"
    );
    assert_eq!(c.main[8], "    system(\"ls\");\n");
    assert_eq!(c.main[9], "    VAR_T = exec(\"ls\");\n");
    assert_eq!(c.main[10], "    VAR_N = (system(\"ls\") >> 8) & 0xff;\n");
    assert_eq!(c.main[11], "    VAR_T = input_string();\n");
    assert_eq!(c.main[12], "    VAR_N = input_number();\n");
    assert_eq!(c.main[13], "    VAR_T = input_until_eof();\n");
    assert_eq!(c.main[14], "    join(VAR_T, \"x\", VAR_T);\n");
    assert_eq!(
        c.main[15],
        "    joinvar = \"\";\n    join(joinvar, \"a\", joinvar);\n    join(joinvar, to_ldpl_string(VAR_N), joinvar);\n    join(joinvar, \"b\", joinvar);\n    VAR_T = joinvar;\n"
    );
}

#[test]
fn file_inclusion_is_resolved_by_the_driver() {
    let err = compile("include \"other.ldpl\"\nPROCEDURE:\nexit\n").unwrap_err();
    assert!(err.details.contains("resolve them before lowering"));
}

#[test]
fn local_shadowing_a_global_is_refused() {
    // a name never sits in both the globals and the locals of one scope
    let src = "DATA:\nx is number\nPROCEDURE:\nsub-procedure f\nlocal data:\nx is text\nprocedure:\ndisplay x\nend sub-procedure\n";
    let err = compile(src).unwrap_err();
    assert!(err.details.contains("Duplicate declaration"));
}

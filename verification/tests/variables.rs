use question_bank_creator::global::{
    data_kind, glob_check_lastdirused, glob_lastdirused_or, DataKind, Decimal, EngineError, TypeWrapper,
};
use question_bank_creator::lists::{list_create, List, ListValues};
use question_bank_creator::variable::{
    vrbl_choose_type, vrbl_create, vrbl_file_of_name, vrbl_name_of_file, vrbl_parameters_input_box,
    vrbl_readpath, vrbl_recalc, vrbl_save, vrbl_setvalues,
    vrbl_source, ValueSource, ValueSupply, VarInput, VarPrmtrs, Variable,
};
use question_bank_creator::{DATA_GENERAL_FOLDER, LIST_DIR};

fn decimal(number: f64) -> Decimal {
    Decimal { bits: number.to_bits() }
}

fn zero() -> Decimal {
    Decimal { bits: 0 }
}

fn input(kind: DataKind, from_list: bool) -> VarInput {
    VarInput {
        kind,
        comma_formatted: false,
        from_list,
        int_min: 1,
        int_max: 6,
        decimal_min: decimal(0.5),
        decimal_max: decimal(9.5),
        decimal_places: 2,
    }
}

fn variable(kind: DataKind, from_list: bool) -> Variable {
    let mut var = Variable::new();
    vrbl_parameters_input_box(&mut var, &input(kind, from_list)).unwrap();
    var
}

fn colours() -> Option<(String, List)> {
    let words = vec!["red".to_string(), "blue".to_string()];
    Some(("colours.lst".to_string(), list_create("Strings", ListValues::Words(words)).unwrap()))
}

#[test]
fn new_parameters_are_those_of_an_integer_variable() {
    let params = VarPrmtrs::new();
    assert!(!params.is_string);
    assert!(!params.is_char);
    assert!(!params.is_from_list);
    assert!(params.is_int);
    assert!(!params.is_float);
    assert_eq!(params.num_min_int, 0);
    assert_eq!(params.num_max_int, 0);
    assert_eq!(f64::from_bits(params.num_min_float.bits), 0.0);
    assert_eq!(f64::from_bits(params.num_max_float.bits), 0.0);
    assert_eq!(params.num_dcml_places, 0);
    assert!(!params.num_comma_frmttd);
    assert_eq!(VarPrmtrs::default(), params);
}

#[test]
fn a_new_variable_has_the_default_values() {
    let var = Variable::new();
    assert_eq!(var.var_fname, "New_Variable");
    assert_eq!(var.display_name, "New_Variable");
    assert_eq!(var.params, VarPrmtrs::new());
    assert_eq!(var.list_fname, "");
    assert_eq!(var.content, TypeWrapper::Integer(0));
    assert_eq!(var.var_type, "ints");
    assert_eq!(Variable::default(), var);
    assert_eq!(var.clone(), var);
}

#[test]
fn an_integer_variable_is_entered() {
    let mut var = Variable::new();
    var.var_fname = "old".to_string();
    let mut entered = input(DataKind::Ints, false);
    entered.comma_formatted = true;
    assert_eq!(vrbl_parameters_input_box(&mut var, &entered), Ok(()));
    assert_eq!(var.var_type, "ints");
    assert_eq!(var.var_fname, "New_Variable");
    assert_eq!(
        var.params,
        VarPrmtrs {
            is_string: false,
            is_char: false,
            is_from_list: false,
            is_int: true,
            is_float: false,
            num_min_int: 1,
            num_max_int: 6,
            num_min_float: zero(),
            num_max_float: zero(),
            num_dcml_places: 0,
            num_comma_frmttd: true,
        }
    );
}

#[test]
fn a_decimal_variable_is_entered() {
    let var = variable(DataKind::Floats, false);
    assert_eq!(var.var_type, "floats");
    assert_eq!(
        var.params,
        VarPrmtrs {
            is_string: false,
            is_char: false,
            is_from_list: false,
            is_int: false,
            is_float: true,
            num_min_int: 0,
            num_max_int: 0,
            num_min_float: decimal(0.5),
            num_max_float: decimal(9.5),
            num_dcml_places: 2,
            num_comma_frmttd: false,
        }
    );
}

#[test]
fn a_string_variable_from_a_list_is_entered() {
    let var = variable(DataKind::Strings, true);
    assert_eq!(var.var_type, "Strings");
    assert!(var.params.is_string);
    assert!(var.params.is_from_list);
    assert!(!var.params.is_int);
    assert!(!var.params.is_char);
    assert!(!var.params.is_float);
    assert_eq!(var.params.num_min_int, 0);
    assert_eq!(var.params.num_max_int, 0);
}

#[test]
fn a_character_variable_from_a_list_is_entered() {
    let var = variable(DataKind::Characters, true);
    assert_eq!(var.var_type, "chars");
    assert!(var.params.is_char);
    assert!(var.params.is_from_list);
    assert!(!var.params.is_int);
}

#[test]
fn text_without_a_list_is_refused() {
    let mut var = Variable::new();
    var.var_fname = "kept".to_string();
    let before = var.clone();
    assert_eq!(
        vrbl_parameters_input_box(&mut var, &input(DataKind::Strings, false)),
        Err(EngineError::Malformed)
    );
    assert_eq!(var, before);
    assert_eq!(
        vrbl_parameters_input_box(&mut var, &input(DataKind::Characters, false)),
        Err(EngineError::Malformed)
    );
    assert_eq!(var, before);
}

#[test]
fn the_source_follows_the_parameters() {
    assert_eq!(vrbl_source(&variable(DataKind::Ints, false)), ValueSource::RandomInteger);
    assert_eq!(vrbl_source(&variable(DataKind::Floats, false)), ValueSource::RandomDecimal);
    assert_eq!(vrbl_source(&variable(DataKind::Ints, true)), ValueSource::List);
    assert_eq!(vrbl_source(&variable(DataKind::Floats, true)), ValueSource::List);
    assert_eq!(vrbl_source(&variable(DataKind::Strings, true)), ValueSource::List);
    assert_eq!(vrbl_source(&Variable::new()), ValueSource::RandomInteger);
}

#[test]
fn a_die_rolls_one_to_six() {
    let mut v1 = variable(DataKind::Ints, false);
    let before = v1.clone();
    for _ in 0..1000 {
        assert_eq!(vrbl_setvalues(&mut v1, &None, zero()), Ok(()));
        match v1.content {
            TypeWrapper::Integer(number) => assert!(1 <= number && number <= 6),
            ref other => panic!("{:?}", other),
        }
        assert_eq!(v1.params, before.params);
        assert_eq!(v1.var_type, before.var_type);
        assert_eq!(v1.var_fname, before.var_fname);
        assert_eq!(v1.display_name, before.display_name);
        assert_eq!(v1.list_fname, "");
    }
}

#[test]
fn integers_stay_within_negative_bounds() {
    let mut var = variable(DataKind::Ints, false);
    var.params.num_min_int = -3;
    var.params.num_max_int = -1;
    for _ in 0..300 {
        vrbl_setvalues(&mut var, &None, zero()).unwrap();
        match var.content {
            TypeWrapper::Integer(number) => assert!(-3 <= number && number <= -1),
            ref other => panic!("{:?}", other),
        }
    }
}

#[test]
fn equal_bounds_give_that_number() {
    let mut var = variable(DataKind::Ints, false);
    var.params.num_min_int = 42;
    var.params.num_max_int = 42;
    vrbl_setvalues(&mut var, &None, zero()).unwrap();
    assert_eq!(var.content, TypeWrapper::Integer(42));
}

#[test]
fn an_integer_variable_ignores_what_else_was_supplied() {
    let mut var = variable(DataKind::Ints, false);
    var.params.num_min_int = 3;
    var.params.num_max_int = 3;
    vrbl_setvalues(&mut var, &colours(), decimal(8.5)).unwrap();
    assert_eq!(var.content, TypeWrapper::Integer(3));
    assert_eq!(var.list_fname, "");
}

#[test]
fn a_decimal_variable_takes_the_decimal_drawn_for_it() {
    let mut var = variable(DataKind::Floats, false);
    assert_eq!(vrbl_setvalues(&mut var, &None, decimal(2.75)), Ok(()));
    assert_eq!(var.content, TypeWrapper::Floating(decimal(2.75)));
    match var.content {
        TypeWrapper::Floating(number) => assert_eq!(f64::from_bits(number.bits), 2.75),
        ref other => panic!("{:?}", other),
    }
    assert_eq!(var.list_fname, "");
    assert_eq!(var.var_type, "floats");
}

#[test]
fn a_colour_is_red_or_blue() {
    let mut var = variable(DataKind::Strings, true);
    let list = colours();
    let mut seen = std::collections::BTreeSet::new();
    for _ in 0..100 {
        assert_eq!(vrbl_setvalues(&mut var, &list, zero()), Ok(()));
        match var.content {
            TypeWrapper::Alphanum(ref word) => {
                assert!(word == "red" || word == "blue");
                seen.insert(word.clone());
            }
            ref other => panic!("{:?}", other),
        }
        assert_eq!(var.list_fname, "colours.lst");
        assert_eq!(var.var_type, "Strings");
    }
    assert_eq!(seen.len(), 2);
}

#[test]
fn a_character_comes_from_a_list_of_characters() {
    let mut var = variable(DataKind::Characters, true);
    let list = Some(("abc.lst".to_string(), list_create("chars", ListValues::Runes(vec!['k'])).unwrap()));
    assert_eq!(vrbl_setvalues(&mut var, &list, zero()), Ok(()));
    assert_eq!(var.content, TypeWrapper::Letter('k'));
    assert_eq!(var.list_fname, "abc.lst");
}

#[test]
fn a_number_comes_from_a_list_of_numbers() {
    let mut var = variable(DataKind::Ints, true);
    let list = Some(("primes.lst".to_string(), list_create("ints", ListValues::Ints(vec![11])).unwrap()));
    assert_eq!(vrbl_setvalues(&mut var, &list, zero()), Ok(()));
    assert_eq!(var.content, TypeWrapper::Integer(11));
    assert_eq!(var.list_fname, "primes.lst");

    let mut var = variable(DataKind::Floats, true);
    let values = ListValues::Decimals(vec![decimal(0.125)]);
    let list = Some(("eighths.lst".to_string(), list_create("floats", values).unwrap()));
    assert_eq!(vrbl_setvalues(&mut var, &list, decimal(7.0)), Ok(()));
    assert_eq!(var.content, TypeWrapper::Floating(decimal(0.125)));
    assert_eq!(var.list_fname, "eighths.lst");
}

#[test]
fn without_a_list_no_value_is_set() {
    let mut var = variable(DataKind::Ints, true);
    let before = var.clone();
    assert_eq!(vrbl_setvalues(&mut var, &None, decimal(1.0)), Err(EngineError::NotFound));
    assert_eq!(var, before);
}

#[test]
fn a_list_of_another_type_gives_no_value() {
    let mut var = variable(DataKind::Ints, true);
    let before = var.clone();
    assert_eq!(vrbl_setvalues(&mut var, &colours(), zero()), Err(EngineError::Malformed));
    assert_eq!(var, before);
}

#[test]
fn a_variable_of_an_unknown_type_takes_no_value_from_a_list() {
    let mut var = variable(DataKind::Strings, true);
    var.var_type = "Characters".to_string();
    let before = var.clone();
    let mut list = colours();
    list.as_mut().unwrap().1.typechoice = "Characters".to_string();
    assert_eq!(vrbl_setvalues(&mut var, &list, zero()), Err(EngineError::Malformed));
    assert_eq!(var, before);
}

#[test]
fn an_empty_list_gives_no_value_and_no_number_is_drawn_instead() {
    let mut var = variable(DataKind::Ints, true);
    var.content = TypeWrapper::Integer(-99);
    let list = Some(("none.lst".to_string(), list_create("ints", ListValues::Ints(Vec::new())).unwrap()));
    for _ in 0..50 {
        assert_eq!(vrbl_setvalues(&mut var, &list, zero()), Err(EngineError::EmptyCollection));
        assert_eq!(var.content, TypeWrapper::Integer(-99));
        assert_eq!(var.list_fname, "none.lst");
    }
}

#[test]
fn a_variable_is_created_and_resolved() {
    let var = vrbl_create(&input(DataKind::Ints, false), &None, zero()).unwrap();
    assert_eq!(var.var_type, "ints");
    match var.content {
        TypeWrapper::Integer(number) => assert!(1 <= number && number <= 6),
        ref other => panic!("{:?}", other),
    }
    let var = vrbl_create(&input(DataKind::Floats, false), &None, decimal(3.25)).unwrap();
    assert_eq!(var.var_type, "floats");
    assert_eq!(var.content, TypeWrapper::Floating(decimal(3.25)));
    let var = vrbl_create(&input(DataKind::Strings, true), &colours(), zero()).unwrap();
    assert_eq!(var.var_type, "Strings");
    assert_eq!(var.list_fname, "colours.lst");
    assert!(
        var.content == TypeWrapper::Alphanum("red".to_string())
            || var.content == TypeWrapper::Alphanum("blue".to_string())
    );
}

#[test]
fn a_variable_that_cannot_be_resolved_is_not_created() {
    assert_eq!(vrbl_create(&input(DataKind::Strings, false), &colours(), zero()), Err(EngineError::Malformed));
    assert_eq!(vrbl_create(&input(DataKind::Strings, true), &None, zero()), Err(EngineError::NotFound));
    assert_eq!(vrbl_create(&input(DataKind::Characters, true), &colours(), zero()), Err(EngineError::Malformed));
    let empty = Some(("e.lst".to_string(), list_create("chars", ListValues::Runes(Vec::new())).unwrap()));
    assert_eq!(vrbl_create(&input(DataKind::Characters, true), &empty, zero()), Err(EngineError::EmptyCollection));
}

#[test]
fn saving_names_the_variable_after_its_file() {
    let mut var = variable(DataKind::Ints, false);
    let before = var.clone();
    vrbl_save(&mut var, "die1.vrbl".to_string());
    assert_eq!(var.var_fname, "die1");
    assert_eq!(var.display_name, before.display_name);
    assert_eq!(var.params, before.params);
    assert_eq!(var.content, before.content);
    assert_eq!(var.var_type, before.var_type);
    assert_eq!(var.list_fname, before.list_fname);
}

#[test]
fn the_path_of_a_variable_file() {
    assert_eq!(vrbl_readpath("/data/variables", "die1.vrbl"), "/data/variables/die1.vrbl");
    assert_eq!(vrbl_readpath("", ""), "/");
}

#[test]
fn a_variable_is_recalculated() {
    let mut var = variable(DataKind::Ints, false);
    let supply = ValueSupply { read_optn: None, drawn: zero() };
    for _ in 0..100 {
        assert_eq!(vrbl_recalc(&mut var, &supply), Ok(()));
        match var.content {
            TypeWrapper::Integer(number) => assert!(1 <= number && number <= 6),
            ref other => panic!("{:?}", other),
        }
    }
}

#[test]
fn bounds_out_of_order_are_not_recalculated() {
    let mut var = variable(DataKind::Ints, false);
    var.params.num_min_int = 6;
    var.params.num_max_int = 1;
    let before = var.clone();
    let supply = ValueSupply { read_optn: None, drawn: zero() };
    assert_eq!(vrbl_recalc(&mut var, &supply), Err(EngineError::Malformed));
    assert_eq!(var, before);
}

#[test]
fn a_failed_recalculation_leaves_the_variable_as_it_was() {
    let mut var = variable(DataKind::Ints, true);
    let before = var.clone();
    let empty = list_create("ints", ListValues::Ints(Vec::new())).unwrap();
    let supply = ValueSupply { read_optn: Some(("none.lst".to_string(), empty)), drawn: zero() };
    assert_eq!(vrbl_recalc(&mut var, &supply), Err(EngineError::EmptyCollection));
    assert_eq!(var, before);
    let supply = ValueSupply { read_optn: None, drawn: zero() };
    assert_eq!(vrbl_recalc(&mut var, &supply), Err(EngineError::NotFound));
    assert_eq!(var, before);
}

#[test]
fn the_last_directory_defaults_to_the_data_folder() {
    let mut last = String::new();
    assert_eq!(glob_check_lastdirused(&mut last), DATA_GENERAL_FOLDER);
    assert_eq!(last, DATA_GENERAL_FOLDER);
    let mut last = "/tmp/banks".to_string();
    assert_eq!(glob_check_lastdirused(&mut last), "/tmp/banks");
    assert_eq!(last, "/tmp/banks");
}

#[test]
fn the_last_directory_defaults_to_the_folder_given() {
    let mut last = String::new();
    assert_eq!(glob_lastdirused_or(&mut last, LIST_DIR), LIST_DIR);
    assert_eq!(last, LIST_DIR);
    assert_eq!(glob_lastdirused_or(&mut last, "/elsewhere"), LIST_DIR);
    assert_eq!(last, LIST_DIR);
}

#[test]
fn the_first_pressed_button_chooses_the_type() {
    assert_eq!(vrbl_choose_type(true, false, false, false), Some(DataKind::Strings));
    assert_eq!(vrbl_choose_type(false, true, false, false), Some(DataKind::Characters));
    assert_eq!(vrbl_choose_type(false, false, true, false), Some(DataKind::Ints));
    assert_eq!(vrbl_choose_type(false, false, false, true), Some(DataKind::Floats));
    assert_eq!(vrbl_choose_type(false, true, true, true), Some(DataKind::Characters));
    assert_eq!(vrbl_choose_type(true, true, true, true), Some(DataKind::Strings));
    assert_eq!(vrbl_choose_type(false, false, false, false), None);
}

fn kind_of(content: &TypeWrapper) -> DataKind {
    match content {
        TypeWrapper::Alphanum(_) => DataKind::Strings,
        TypeWrapper::Letter(_) => DataKind::Characters,
        TypeWrapper::Integer(_) => DataKind::Ints,
        TypeWrapper::Floating(_) => DataKind::Floats,
    }
}

#[test]
fn the_content_of_a_new_variable_is_of_its_type() {
    let var = Variable::new();
    assert_eq!(data_kind(var.var_type.as_str()), Some(kind_of(&var.content)));
    assert!(var.params.is_int);
    assert!(!var.params.is_from_list);
    assert_eq!(var.list_fname, "");
}

#[test]
fn the_content_of_an_entered_variable_is_the_blank_of_its_type() {
    assert_eq!(variable(DataKind::Strings, true).content, TypeWrapper::Alphanum(String::new()));
    assert_eq!(variable(DataKind::Characters, true).content, TypeWrapper::Letter(' '));
    assert_eq!(variable(DataKind::Ints, false).content, TypeWrapper::Integer(0));
    assert_eq!(variable(DataKind::Floats, false).content, TypeWrapper::Floating(decimal(0.0)));
    assert_eq!(TypeWrapper::blank(DataKind::Ints), TypeWrapper::Integer(0));
    for kind in [DataKind::Strings, DataKind::Characters, DataKind::Ints, DataKind::Floats] {
        for from_list in [true, false] {
            let mut var = Variable::new();
            if vrbl_parameters_input_box(&mut var, &input(kind, from_list)).is_ok() {
                assert_eq!(data_kind(var.var_type.as_str()), Some(kind));
                assert_eq!(kind_of(&var.content), kind);
            }
        }
    }
}

#[test]
fn the_content_stays_of_the_variables_type_when_it_is_set_anew() {
    let mut var = variable(DataKind::Ints, false);
    vrbl_setvalues(&mut var, &None, zero()).unwrap();
    assert_eq!(kind_of(&var.content), DataKind::Ints);
    let mut var = variable(DataKind::Floats, false);
    vrbl_setvalues(&mut var, &None, decimal(1.5)).unwrap();
    assert_eq!(kind_of(&var.content), DataKind::Floats);
    let mut var = variable(DataKind::Strings, true);
    vrbl_setvalues(&mut var, &colours(), zero()).unwrap();
    assert_eq!(kind_of(&var.content), DataKind::Strings);
}

#[test]
fn the_file_of_a_variable_has_the_ending_of_variable_files() {
    assert_eq!(vrbl_file_of_name("die1"), "die1.vrbl");
    assert_eq!(vrbl_file_of_name(""), ".vrbl");
    assert_eq!(vrbl_file_of_name("é"), "é.vrbl");
}

#[test]
fn the_name_of_a_variable_is_its_files_name_without_the_ending() {
    assert_eq!(vrbl_name_of_file("die1.vrbl"), "die1");
    assert_eq!(vrbl_name_of_file("die1"), "die1");
    assert_eq!(vrbl_name_of_file("die1.txt"), "die1.txt");
    assert_eq!(vrbl_name_of_file(".vrbl"), "");
    assert_eq!(vrbl_name_of_file("vrbl"), "vrbl");
    assert_eq!(vrbl_name_of_file(""), "");
    assert_eq!(vrbl_name_of_file("a.vrbl.vrbl"), "a.vrbl");
    assert_eq!(vrbl_name_of_file("é.vrbl"), "é");
    assert_eq!(vrbl_name_of_file("die1.VRBL"), "die1.VRBL");
}

#[test]
fn the_file_of_a_name_gives_the_name_back() {
    for name in ["die1", "", "a.b", "x.vrbl", "日本"] {
        assert_eq!(vrbl_name_of_file(vrbl_file_of_name(name).as_str()), name);
    }
}

use py_hotstart::bootstrap::substitute_prelude;
use py_hotstart::instructions::{
    cc_list, generate_instructions, json_array, json_object, json_quote, py_quote, RunMode,
    TerminalMode,
};
use py_hotstart::interpreter::Interpreter;
use py_hotstart::child_id::ChildId;

#[test]
fn python_quoting_escapes_specials() {
    assert_eq!(py_quote(b"plain"), b"\"plain\"".to_vec());
    assert_eq!(py_quote(b"a\"b"), b"\"a\\\"b\"".to_vec());
    assert_eq!(py_quote(b"a\\b"), b"\"a\\\\b\"".to_vec());
    assert_eq!(py_quote(b"a\nb\tc\rd"), b"\"a\\nb\\tc\\rd\"".to_vec());
    assert_eq!(py_quote(&[0x01, 0x1B, 0x7F]), b"\"\\x01\\x1b\\x7f\"".to_vec());
    assert_eq!(py_quote(b""), b"\"\"".to_vec());
}

#[test]
fn json_quoting_escapes_specials() {
    assert_eq!(json_quote(b"plain"), b"\"plain\"".to_vec());
    assert_eq!(json_quote(b"a\"b\\c"), b"\"a\\\"b\\\\c\"".to_vec());
    assert_eq!(json_quote(b"a\nb"), b"\"a\\u000ab\"".to_vec());
}

#[test]
fn json_collections_have_exact_shape() {
    assert_eq!(json_array(&vec![]), b"[]".to_vec());
    assert_eq!(json_array(&vec![b"-c".to_vec()]), b"[\"-c\"]".to_vec());
    assert_eq!(
        json_array(&vec![b"m".to_vec(), b"a b".to_vec()]),
        b"[\"m\",\"a b\"]".to_vec()
    );
    assert_eq!(json_object(&vec![]), b"{}".to_vec());
    assert_eq!(
        json_object(&vec![(b"FOO".to_vec(), b"bar".to_vec()), (b"A".to_vec(), b"1".to_vec())]),
        b"{\"FOO\":\"bar\",\"A\":\"1\"}".to_vec()
    );
}

#[test]
fn control_character_list_renders_bytes_literals() {
    assert_eq!(cc_list(&[]), b"[]".to_vec());
    assert_eq!(cc_list(&[0x03, 0x1C]), b"[b'\\x03', b'\\x1c']".to_vec());
}

#[test]
fn instructions_for_code_snippet() {
    let mode = TerminalMode {
        input_flags: 1,
        output_flags: 2,
        control_flags: 3,
        local_flags: 4,
        control_chars: vec![0x03],
    };
    let run = RunMode::Code { snippet: b"print(1+1)".to_vec() };
    let env = vec![(b"FOO".to_vec(), b"bar".to_vec())];
    let out = generate_instructions(&mode, run, b"/tmp", &env);
    let expected = "import sys, os, termios\n\nos.environ.clear()\nos.environ.update({\"FOO\":\"bar\"})\nos.chdir(\"/tmp\")\nsys.argv.clear()\nsys.argv.extend([\"-c\"])\ntermios.tcsetattr(0, termios.TCSANOW, [1, 2, 3, 4, 38400, 38400, [b'\\x03']])\n\nexec(\"print(1+1)\", {**globals(), '__name__':'__main__'})\n";
    assert_eq!(String::from_utf8(out).unwrap(), expected);
}

#[test]
fn instructions_argv_per_mode() {
    let mode = TerminalMode {
        input_flags: 0,
        output_flags: 0,
        control_flags: 0,
        local_flags: 0,
        control_chars: vec![],
    };
    let run = RunMode::Module {
        module: b"http.server".to_vec(),
        args: vec![b"8000".to_vec()],
    };
    let out = generate_instructions(&mode, run, b"/", &vec![]);
    let text = String::from_utf8(out).unwrap();
    assert!(text.contains("sys.argv.extend([\"http.server\",\"8000\"])"));
    assert!(text.contains(
        "import runpy; runpy.run_module(\"http.server\", run_name='__main__', alter_sys=True)"
    ));

    let run = RunMode::Script { path: b"x.py".to_vec(), args: vec![] };
    let out = generate_instructions(&mode, run, b"/", &vec![]);
    let text = String::from_utf8(out).unwrap();
    assert!(text.contains("sys.argv.extend([\"x.py\"])"));
    assert!(text.contains("import runpy; runpy.run_path(\"x.py\", run_name='__main__')"));

    let run = RunMode::Repl;
    let out = generate_instructions(&mode, run, b"/", &vec![]);
    let text = String::from_utf8(out).unwrap();
    assert!(text.contains("sys.argv.extend([\"\"])"));
    assert!(text.contains("import code; code.interact(local={}, exitmsg='')"));
}

#[test]
fn prelude_substitution_at_marker() {
    assert_eq!(
        substitute_prelude(b"head\n# prelude\ntail\n", b"X = 42"),
        b"head\nX = 42\ntail\n".to_vec()
    );
    assert_eq!(substitute_prelude(b"# prelude", b"A"), b"A".to_vec());
    assert_eq!(substitute_prelude(b"no marker here", b"A"), b"no marker here".to_vec());
    assert_eq!(substitute_prelude(b"", b"A"), b"".to_vec());
    // Only the first marker is replaced.
    assert_eq!(
        substitute_prelude(b"# prelude|# prelude", b"P"),
        b"P|# prelude".to_vec()
    );
}

#[test]
fn interpreter_control_channel_framing() {
    let id = ChildId::new(1, 4242);
    let mut interp = Interpreter::new(id);
    assert!(interp.is_supervised());
    assert_eq!(interp.id(), id);
    assert_eq!(
        interp.unsupervise_message(),
        b"\"supervised = False; ctrl.write('OK\\\\n')\"\n".to_vec()
    );
    assert!(Interpreter::check_unsupervise_reply(b"OK\n"));
    assert!(Interpreter::check_unsupervise_reply(b" OK "));
    assert!(!Interpreter::check_unsupervise_reply(b"NO"));
    assert!(!Interpreter::check_unsupervise_reply(b""));
    interp.mark_unsupervised();
    assert!(!interp.is_supervised());
    assert_eq!(
        interp.instructions_message(b"print(1)\n"),
        b"\"print(1)\\n\"\n".to_vec()
    );
}

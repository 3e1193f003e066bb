//! The instructions script the client feeds to a taken interpreter, and the
//! quoting codecs it rests on: a Python string-literal quoting for payloads
//! delivered over the control channel, and a JSON string quoting for the
//! environment and argument-vector literals embedded in the script.

use vstd::prelude::*;

use crate::text::{ascii_bytes, ascii_of, dec_of, fmt_u32};

verus! {

/// Lower-case hexadecimal digit.
pub open spec fn hex_digit(n: nat) -> u8
    recommends
        n < 16,
{
    if n < 10 {
        (0x30 + n) as u8
    } else {
        (0x57 + n) as u8
    }
}

fn hex_digit_byte(n: u8) -> (r: u8)
    requires
        n < 16,
    ensures
        r == hex_digit(n as nat),
{
    if n < 10 {
        0x30 + n
    } else {
        0x57 + n
    }
}

/// How one byte appears inside a double-quoted Python string literal:
/// backslash, quote and the common controls get their short escapes, other
/// controls a `\xHH` escape, everything else stands as itself.
pub open spec fn py_quote_byte(b: u8) -> Seq<u8> {
    if b == 0x5C {
        seq![0x5Cu8, 0x5Cu8]
    } else if b == 0x22 {
        seq![0x5Cu8, 0x22u8]
    } else if b == 0x0A {
        seq![0x5Cu8, 0x6Eu8]
    } else if b == 0x0D {
        seq![0x5Cu8, 0x72u8]
    } else if b == 0x09 {
        seq![0x5Cu8, 0x74u8]
    } else if b < 0x20 || b == 0x7F {
        seq![0x5Cu8, 0x78u8, hex_digit((b / 16) as nat), hex_digit((b % 16) as nat)]
    } else {
        seq![b]
    }
}

pub open spec fn py_quoted_inner(s: Seq<u8>) -> Seq<u8>
    decreases s.len(),
{
    if s.len() == 0 {
        Seq::empty()
    } else {
        py_quoted_inner(s.drop_last()) + py_quote_byte(s.last())
    }
}

/// `s` as a double-quoted Python string literal.
pub open spec fn py_quoted(s: Seq<u8>) -> Seq<u8> {
    seq![0x22u8] + py_quoted_inner(s) + seq![0x22u8]
}

/// Quote a payload as a Python string literal.
pub fn py_quote(s: &[u8]) -> (r: Vec<u8>)
    ensures
        r@ == py_quoted(s@),
{
    let mut r: Vec<u8> = Vec::new();
    r.push(0x22);
    let mut i: usize = 0;
    proof {
        assert(s@.take(0) =~= Seq::<u8>::empty());
        assert(r@ =~= seq![0x22u8] + py_quoted_inner(s@.take(0)));
    }
    while i < s.len()
        invariant
            0 <= i <= s@.len(),
            r@ == seq![0x22u8] + py_quoted_inner(s@.take(i as int)),
        decreases s@.len() - i,
    {
        let b = s[i];
        proof {
            assert(s@.take(i as int + 1).drop_last() =~= s@.take(i as int));
            assert(s@.take(i as int + 1).last() == b);
        }
        if b == 0x5C {
            r.push(0x5C);
            r.push(0x5C);
        } else if b == 0x22 {
            r.push(0x5C);
            r.push(0x22);
        } else if b == 0x0A {
            r.push(0x5C);
            r.push(0x6E);
        } else if b == 0x0D {
            r.push(0x5C);
            r.push(0x72);
        } else if b == 0x09 {
            r.push(0x5C);
            r.push(0x74);
        } else if b < 0x20 || b == 0x7F {
            r.push(0x5C);
            r.push(0x78);
            r.push(hex_digit_byte(b / 16));
            r.push(hex_digit_byte(b % 16));
        } else {
            r.push(b);
        }
        proof {
            assert(r@ =~= seq![0x22u8] + py_quoted_inner(s@.take(i as int + 1)));
        }
        i = i + 1;
    }
    r.push(0x22);
    proof {
        assert(s@.take(s@.len() as int) =~= s@);
        assert(r@ =~= py_quoted(s@));
    }
    r
}

/// How one byte appears inside a JSON string: quote and backslash get their
/// escapes, controls a `\u00HH` escape, everything else stands as itself.
pub open spec fn json_quote_byte(b: u8) -> Seq<u8> {
    if b == 0x22 {
        seq![0x5Cu8, 0x22u8]
    } else if b == 0x5C {
        seq![0x5Cu8, 0x5Cu8]
    } else if b < 0x20 {
        seq![0x5Cu8, 0x75u8, 0x30u8, 0x30u8, hex_digit((b / 16) as nat), hex_digit(
            (b % 16) as nat,
        )]
    } else {
        seq![b]
    }
}

pub open spec fn json_quoted_inner(s: Seq<u8>) -> Seq<u8>
    decreases s.len(),
{
    if s.len() == 0 {
        Seq::empty()
    } else {
        json_quoted_inner(s.drop_last()) + json_quote_byte(s.last())
    }
}

/// `s` as a JSON string.
pub open spec fn json_quoted(s: Seq<u8>) -> Seq<u8> {
    seq![0x22u8] + json_quoted_inner(s) + seq![0x22u8]
}

/// Quote a value as a JSON string.
pub fn json_quote(s: &[u8]) -> (r: Vec<u8>)
    ensures
        r@ == json_quoted(s@),
{
    let mut r: Vec<u8> = Vec::new();
    r.push(0x22);
    let mut i: usize = 0;
    proof {
        assert(s@.take(0) =~= Seq::<u8>::empty());
        assert(r@ =~= seq![0x22u8] + json_quoted_inner(s@.take(0)));
    }
    while i < s.len()
        invariant
            0 <= i <= s@.len(),
            r@ == seq![0x22u8] + json_quoted_inner(s@.take(i as int)),
        decreases s@.len() - i,
    {
        let b = s[i];
        proof {
            assert(s@.take(i as int + 1).drop_last() =~= s@.take(i as int));
            assert(s@.take(i as int + 1).last() == b);
        }
        if b == 0x22 {
            r.push(0x5C);
            r.push(0x22);
        } else if b == 0x5C {
            r.push(0x5C);
            r.push(0x5C);
        } else if b < 0x20 {
            r.push(0x5C);
            r.push(0x75);
            r.push(0x30);
            r.push(0x30);
            r.push(hex_digit_byte(b / 16));
            r.push(hex_digit_byte(b % 16));
        } else {
            r.push(b);
        }
        proof {
            assert(r@ =~= seq![0x22u8] + json_quoted_inner(s@.take(i as int + 1)));
        }
        i = i + 1;
    }
    r.push(0x22);
    proof {
        assert(s@.take(s@.len() as int) =~= s@);
        assert(r@ =~= json_quoted(s@));
    }
    r
}

/// The items of a JSON array of strings, comma-separated.
pub open spec fn json_items_text(items: Seq<Seq<u8>>) -> Seq<u8>
    decreases items.len(),
{
    if items.len() == 0 {
        Seq::empty()
    } else if items.len() == 1 {
        json_quoted(items[0])
    } else {
        json_items_text(items.drop_last()) + seq![0x2Cu8] + json_quoted(items.last())
    }
}

/// A JSON array of strings.
pub open spec fn json_array_text(items: Seq<Seq<u8>>) -> Seq<u8> {
    seq![0x5Bu8] + json_items_text(items) + seq![0x5Du8]
}

/// Render a list of values as a JSON array of strings.
pub fn json_array(items: &Vec<Vec<u8>>) -> (r: Vec<u8>)
    ensures
        r@ == json_array_text(items@.map_values(|v: Vec<u8>| v@)),
{
    let ghost view = items@.map_values(|v: Vec<u8>| v@);
    let mut r: Vec<u8> = Vec::new();
    r.push(0x5B);
    let mut i: usize = 0;
    proof {
        assert(view.take(0) =~= Seq::<Seq<u8>>::empty());
        assert(r@ =~= seq![0x5Bu8] + json_items_text(view.take(0)));
    }
    while i < items.len()
        invariant
            0 <= i <= items@.len(),
            view == items@.map_values(|v: Vec<u8>| v@),
            r@ == seq![0x5Bu8] + json_items_text(view.take(i as int)),
        decreases items@.len() - i,
    {
        if i > 0 {
            r.push(0x2C);
        }
        let mut q = json_quote(items[i].as_slice());
        r.append(&mut q);
        proof {
            assert(view.take(i as int + 1).drop_last() =~= view.take(i as int));
            assert(view.take(i as int + 1).last() == view[i as int]);
            assert(view[i as int] == items@[i as int]@);
            assert(r@ =~= seq![0x5Bu8] + json_items_text(view.take(i as int + 1)));
        }
        i = i + 1;
    }
    r.push(0x5D);
    proof {
        assert(view.take(view.len() as int) =~= view);
        assert(r@ =~= json_array_text(view));
    }
    r
}

/// The members of a JSON object of string pairs, comma-separated.
pub open spec fn json_members_text(pairs: Seq<(Seq<u8>, Seq<u8>)>) -> Seq<u8>
    decreases pairs.len(),
{
    if pairs.len() == 0 {
        Seq::empty()
    } else if pairs.len() == 1 {
        json_quoted(pairs[0].0) + seq![0x3Au8] + json_quoted(pairs[0].1)
    } else {
        json_members_text(pairs.drop_last()) + seq![0x2Cu8] + json_quoted(pairs.last().0)
            + seq![0x3Au8] + json_quoted(pairs.last().1)
    }
}

/// A JSON object of string pairs, in the order given.
pub open spec fn json_object_text(pairs: Seq<(Seq<u8>, Seq<u8>)>) -> Seq<u8> {
    seq![0x7Bu8] + json_members_text(pairs) + seq![0x7Du8]
}

/// Render key-value pairs as a JSON object, in the order given.
pub fn json_object(pairs: &Vec<(Vec<u8>, Vec<u8>)>) -> (r: Vec<u8>)
    ensures
        r@ == json_object_text(pairs@.map_values(|p: (Vec<u8>, Vec<u8>)| (p.0@, p.1@))),
{
    let ghost view = pairs@.map_values(|p: (Vec<u8>, Vec<u8>)| (p.0@, p.1@));
    let mut r: Vec<u8> = Vec::new();
    r.push(0x7B);
    let mut i: usize = 0;
    proof {
        assert(view.take(0) =~= Seq::<(Seq<u8>, Seq<u8>)>::empty());
        assert(r@ =~= seq![0x7Bu8] + json_members_text(view.take(0)));
    }
    while i < pairs.len()
        invariant
            0 <= i <= pairs@.len(),
            view == pairs@.map_values(|p: (Vec<u8>, Vec<u8>)| (p.0@, p.1@)),
            r@ == seq![0x7Bu8] + json_members_text(view.take(i as int)),
        decreases pairs@.len() - i,
    {
        if i > 0 {
            r.push(0x2C);
        }
        let mut k = json_quote(pairs[i].0.as_slice());
        r.append(&mut k);
        r.push(0x3A);
        let mut v = json_quote(pairs[i].1.as_slice());
        r.append(&mut v);
        proof {
            assert(view.take(i as int + 1).drop_last() =~= view.take(i as int));
            assert(view.take(i as int + 1).last() == view[i as int]);
            assert(view[i as int] == (pairs@[i as int].0@, pairs@[i as int].1@));
            assert(r@ =~= seq![0x7Bu8] + json_members_text(view.take(i as int + 1)));
        }
        i = i + 1;
    }
    r.push(0x7D);
    proof {
        assert(view.take(view.len() as int) =~= view);
        assert(r@ =~= json_object_text(view));
    }
    r
}

/// What the payload runs as.
pub enum RunMode {
    /// Evaluate a code snippet as a script; argv is `["-c"]`.
    Code { snippet: Vec<u8> },
    /// Import a module as `__main__`; argv is `[module, args..]`.
    Module { module: Vec<u8>, args: Vec<Vec<u8>> },
    /// Run a script path as `__main__`; argv is `[path, args..]`.
    Script { path: Vec<u8>, args: Vec<Vec<u8>> },
    /// Enter an interactive read-eval loop; argv is `[""]`.
    Repl,
}

/// The caller's terminal modes, captured before the proxy switched the
/// terminal to raw mode; the instructions script restores them inside the
/// interpreter.
pub struct TerminalMode {
    pub input_flags: u32,
    pub output_flags: u32,
    pub control_flags: u32,
    pub local_flags: u32,
    pub control_chars: Vec<u8>,
}

/// The argument vector the payload sees.
pub open spec fn spec_argv(m: RunMode) -> Seq<Seq<u8>> {
    match m {
        RunMode::Code { .. } => seq![ascii_of("-c"@)],
        RunMode::Module { module, args } => seq![module@] + args@.map_values(|a: Vec<u8>| a@),
        RunMode::Script { path, args } => seq![path@] + args@.map_values(|a: Vec<u8>| a@),
        RunMode::Repl => seq![Seq::<u8>::empty()],
    }
}

/// The Python line that runs the payload.
pub open spec fn spec_payload_line(m: RunMode) -> Seq<u8> {
    match m {
        RunMode::Code { snippet } => ascii_of("exec("@) + py_quoted(snippet@) + ascii_of(
            ", {**globals(), '__name__':'__main__'})"@,
        ),
        RunMode::Module { module, .. } => ascii_of("import runpy; runpy.run_module("@)
            + py_quoted(module@) + ascii_of(", run_name='__main__', alter_sys=True)"@),
        RunMode::Script { path, .. } => ascii_of("import runpy; runpy.run_path("@) + py_quoted(
            path@,
        ) + ascii_of(", run_name='__main__')"@),
        RunMode::Repl => ascii_of("import code; code.interact(local={}, exitmsg='')"@),
    }
}

/// One control character as the Python bytes literal `b'\xHH'`.
pub open spec fn cc_item_text(b: u8) -> Seq<u8> {
    seq![0x62u8, 0x27u8, 0x5Cu8, 0x78u8, hex_digit((b / 16) as nat), hex_digit((b % 16) as nat), 0x27u8]
}

pub open spec fn cc_items_text(cc: Seq<u8>) -> Seq<u8>
    decreases cc.len(),
{
    if cc.len() == 0 {
        Seq::empty()
    } else if cc.len() == 1 {
        cc_item_text(cc[0])
    } else {
        cc_items_text(cc.drop_last()) + seq![0x2Cu8, 0x20u8] + cc_item_text(cc.last())
    }
}

/// The control characters as a Python list of bytes literals.
pub open spec fn cc_list_text(cc: Seq<u8>) -> Seq<u8> {
    seq![0x5Bu8] + cc_items_text(cc) + seq![0x5Du8]
}

/// Render the control characters as a Python list of bytes literals.
pub fn cc_list(cc: &[u8]) -> (r: Vec<u8>)
    ensures
        r@ == cc_list_text(cc@),
{
    let mut r: Vec<u8> = Vec::new();
    r.push(0x5B);
    let mut i: usize = 0;
    proof {
        assert(cc@.take(0) =~= Seq::<u8>::empty());
        assert(r@ =~= seq![0x5Bu8] + cc_items_text(cc@.take(0)));
    }
    while i < cc.len()
        invariant
            0 <= i <= cc@.len(),
            r@ == seq![0x5Bu8] + cc_items_text(cc@.take(i as int)),
        decreases cc@.len() - i,
    {
        if i > 0 {
            r.push(0x2C);
            r.push(0x20);
        }
        let b = cc[i];
        r.push(0x62);
        r.push(0x27);
        r.push(0x5C);
        r.push(0x78);
        r.push(hex_digit_byte(b / 16));
        r.push(hex_digit_byte(b % 16));
        r.push(0x27);
        proof {
            assert(cc@.take(i as int + 1).drop_last() =~= cc@.take(i as int));
            assert(cc@.take(i as int + 1).last() == cc@[i as int]);
            assert(r@ =~= seq![0x5Bu8] + cc_items_text(cc@.take(i as int + 1)));
        }
        i = i + 1;
    }
    r.push(0x5D);
    proof {
        assert(cc@.take(cc@.len() as int) =~= cc@);
        assert(r@ =~= cc_list_text(cc@));
    }
    r
}

/// The whole instructions script: restore environment, working directory,
/// argument vector and terminal modes, then run the payload.
pub open spec fn instructions_text(
    mode: TerminalMode,
    run: RunMode,
    cwd: Seq<u8>,
    env: Seq<(Seq<u8>, Seq<u8>)>,
) -> Seq<u8> {
    ascii_of("import sys, os, termios\n\nos.environ.clear()\nos.environ.update("@)
        + json_object_text(env) + ascii_of(")\nos.chdir("@) + py_quoted(cwd) + ascii_of(
        ")\nsys.argv.clear()\nsys.argv.extend("@,
    ) + json_array_text(spec_argv(run)) + ascii_of(")\ntermios.tcsetattr(0, termios.TCSANOW, ["@)
        + dec_of(mode.input_flags as nat) + ascii_of(", "@) + dec_of(mode.output_flags as nat)
        + ascii_of(", "@) + dec_of(mode.control_flags as nat) + ascii_of(", "@) + dec_of(
        mode.local_flags as nat,
    ) + ascii_of(", 38400, 38400, "@) + cc_list_text(mode.control_chars@) + ascii_of("])\n\n"@)
        + spec_payload_line(run) + ascii_of("\n"@)
}

/// Compose the instructions script for one invocation.
pub fn generate_instructions(
    mode: &TerminalMode,
    run: RunMode,
    cwd: &[u8],
    env: &Vec<(Vec<u8>, Vec<u8>)>,
) -> (r: Vec<u8>)
    ensures
        r@ == instructions_text(
            *mode,
            run,
            cwd@,
            env@.map_values(|p: (Vec<u8>, Vec<u8>)| (p.0@, p.1@)),
        ),
{
    proof {
        reveal_strlit("import sys, os, termios\n\nos.environ.clear()\nos.environ.update(");
        reveal_strlit(")\nos.chdir(");
        reveal_strlit(")\nsys.argv.clear()\nsys.argv.extend(");
        reveal_strlit(")\ntermios.tcsetattr(0, termios.TCSANOW, [");
        reveal_strlit(", ");
        reveal_strlit(", 38400, 38400, ");
        reveal_strlit("])\n\n");
        reveal_strlit("\n");
    }
    let mut r = ascii_bytes("import sys, os, termios\n\nos.environ.clear()\nos.environ.update(");
    let mut env_text = json_object(env);
    r.append(&mut env_text);
    let mut p1 = ascii_bytes(")\nos.chdir(");
    r.append(&mut p1);
    let mut cwd_text = py_quote(cwd);
    r.append(&mut cwd_text);
    let mut p2 = ascii_bytes(")\nsys.argv.clear()\nsys.argv.extend(");
    r.append(&mut p2);
    let argv = build_argv(&run);
    let mut argv_text = json_array(&argv);
    r.append(&mut argv_text);
    let mut p3 = ascii_bytes(")\ntermios.tcsetattr(0, termios.TCSANOW, [");
    r.append(&mut p3);
    let mut f1 = fmt_u32(mode.input_flags);
    r.append(&mut f1);
    let mut c1 = ascii_bytes(", ");
    r.append(&mut c1);
    let mut f2 = fmt_u32(mode.output_flags);
    r.append(&mut f2);
    let mut c2 = ascii_bytes(", ");
    r.append(&mut c2);
    let mut f3 = fmt_u32(mode.control_flags);
    r.append(&mut f3);
    let mut c3 = ascii_bytes(", ");
    r.append(&mut c3);
    let mut f4 = fmt_u32(mode.local_flags);
    r.append(&mut f4);
    let mut p4 = ascii_bytes(", 38400, 38400, ");
    r.append(&mut p4);
    let mut cc_text = cc_list(mode.control_chars.as_slice());
    r.append(&mut cc_text);
    let mut p5 = ascii_bytes("])\n\n");
    r.append(&mut p5);
    let mut payload = build_payload_line(&run);
    r.append(&mut payload);
    let mut nl = ascii_bytes("\n");
    r.append(&mut nl);
    proof {
        assert(r@ =~= instructions_text(
            *mode,
            run,
            cwd@,
            env@.map_values(|p: (Vec<u8>, Vec<u8>)| (p.0@, p.1@)),
        ));
    }
    r
}

/// The argument vector for a run mode.
fn build_argv(run: &RunMode) -> (r: Vec<Vec<u8>>)
    ensures
        r@.map_values(|v: Vec<u8>| v@) == spec_argv(*run),
{
    let mut r: Vec<Vec<u8>> = Vec::new();
    match run {
        RunMode::Code { .. } => {
            proof {
                reveal_strlit("-c");
            }
            r.push(ascii_bytes("-c"));
        },
        RunMode::Module { module, args } => {
            r.push(clone_bytes(module));
            let mut i: usize = 0;
            while i < args.len()
                invariant
                    0 <= i <= args@.len(),
                    r@.len() == i + 1,
                    r@[0]@ == module@,
                    forall|j: int| 0 <= j < i ==> r@[j + 1]@ == (#[trigger] args@[j])@,
                decreases args@.len() - i,
            {
                r.push(clone_bytes(&args[i]));
                i = i + 1;
            }
        },
        RunMode::Script { path, args } => {
            r.push(clone_bytes(path));
            let mut i: usize = 0;
            while i < args.len()
                invariant
                    0 <= i <= args@.len(),
                    r@.len() == i + 1,
                    r@[0]@ == path@,
                    forall|j: int| 0 <= j < i ==> r@[j + 1]@ == (#[trigger] args@[j])@,
                decreases args@.len() - i,
            {
                r.push(clone_bytes(&args[i]));
                i = i + 1;
            }
        },
        RunMode::Repl => {
            r.push(Vec::new());
        },
    }
    proof {
        let mapped = r@.map_values(|v: Vec<u8>| v@);
        let want = spec_argv(*run);
        assert(mapped.len() == want.len());
        assert forall|k: int| 0 <= k < mapped.len() implies mapped[k] == want[k] by {
            assert(mapped[k] == r@[k]@);
            match *run {
                RunMode::Module { module, args } => {
                    if k > 0 {
                        assert(r@[k]@ == args@[k - 1]@);
                        assert(want[k] == args@.map_values(|a: Vec<u8>| a@)[k - 1]);
                    }
                },
                RunMode::Script { path, args } => {
                    if k > 0 {
                        assert(r@[k]@ == args@[k - 1]@);
                        assert(want[k] == args@.map_values(|a: Vec<u8>| a@)[k - 1]);
                    }
                },
                _ => {},
            }
        }
        assert(mapped =~= want);
    }
    r
}

/// The Python line that runs the payload of a run mode.
fn build_payload_line(run: &RunMode) -> (r: Vec<u8>)
    ensures
        r@ == spec_payload_line(*run),
{
    match run {
        RunMode::Code { snippet } => {
            proof {
                reveal_strlit("exec(");
                reveal_strlit(", {**globals(), '__name__':'__main__'})");
            }
            let mut r = ascii_bytes("exec(");
            let mut q = py_quote(snippet.as_slice());
            r.append(&mut q);
            let mut tail = ascii_bytes(", {**globals(), '__name__':'__main__'})");
            r.append(&mut tail);
            r
        },
        RunMode::Module { module, .. } => {
            proof {
                reveal_strlit("import runpy; runpy.run_module(");
                reveal_strlit(", run_name='__main__', alter_sys=True)");
            }
            let mut r = ascii_bytes("import runpy; runpy.run_module(");
            let mut q = py_quote(module.as_slice());
            r.append(&mut q);
            let mut tail = ascii_bytes(", run_name='__main__', alter_sys=True)");
            r.append(&mut tail);
            r
        },
        RunMode::Script { path, .. } => {
            proof {
                reveal_strlit("import runpy; runpy.run_path(");
                reveal_strlit(", run_name='__main__')");
            }
            let mut r = ascii_bytes("import runpy; runpy.run_path(");
            let mut q = py_quote(path.as_slice());
            r.append(&mut q);
            let mut tail = ascii_bytes(", run_name='__main__')");
            r.append(&mut tail);
            r
        },
        RunMode::Repl => {
            proof {
                reveal_strlit("import code; code.interact(local={}, exitmsg='')");
            }
            ascii_bytes("import code; code.interact(local={}, exitmsg='')")
        },
    }
}

fn clone_bytes(v: &Vec<u8>) -> (r: Vec<u8>)
    ensures
        r@ == v@,
{
    vstd::slice::slice_to_vec(v.as_slice())
}

} // verus!


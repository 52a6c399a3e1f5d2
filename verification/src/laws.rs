//! The transcoder laws: decoding an encoded document gives the document
//! back, re-encoding a decoded document is stable, and the last occurrence
//! of a duplicated key wins.

use vstd::prelude::*;
use crate::decode::{
    env_upsert, init_state, key_form, key_inner, run_lines, scalar_assign, spec_decode, spec_step,
    string_form, str_inner, integer_form, int_inner, DecState,
};
use crate::encode::{
    array_attr_lines, array_close_line, array_elem_line, array_elem_lines, array_open_line,
    bool_attr_lines, bool_core, bool_value_line, core_integer, core_key, core_string,
    dict_close_line, dict_open_line, env_attr_lines, env_key_line, env_pair_lines, env_value_line,
    footer_lines, header_lines, int_attr_lines, integer_value_line, key_line, session_attr_lines,
    spec_encode, spec_encode_lines, string_attr_lines, string_value_line,
};
use crate::model::{
    env_ok, list_ok, opt_text_ok, session_ok, supported, text_ok, PlistView, SessionTypeView,
};
use crate::text::{
    blank_line, is_space, lemma_i32_chars_line_ok, lemma_lines_of_join, lemma_parse_of_render,
    lemma_trim_concat, lemma_trim_spaces, line_ok, spec_i32_chars, spec_lines, spec_trim,
};

verus! {

/// A state ready for the next attribute: inside the top-level dictionary,
/// no key pending, no collection open.
pub open spec fn clean(st: DecState) -> bool {
    &&& st.in_dict
    &&& !st.collecting_array
    &&& !st.collecting_env
    &&& st.current_key.len() == 0
}

proof fn lemma_lits()
    ensures
        "<dict>"@.len() == 6,
        "</dict>"@.len() == 7,
        "<array>"@.len() == 7,
        "</array>"@.len() == 8,
        "<key>"@.len() == 5,
        "</key>"@.len() == 6,
        "<string>"@.len() == 8,
        "</string>"@.len() == 9,
        "<integer>"@.len() == 9,
        "</integer>"@.len() == 10,
        "<true/>"@.len() == 7,
        "<false/>"@.len() == 8,
        "    "@.len() == 4,
        "        "@.len() == 8,
        forall|i: int| 0 <= i < 4 ==> "    "@[i] == ' ',
        forall|i: int| 0 <= i < 8 ==> "        "@[i] == ' ',
        "<key>"@[0] == '<' && "<key>"@[1] == 'k' && "<key>"@[4] == '>',
        "</key>"@[0] == '<' && "</key>"@[5] == '>',
        "<string>"@[0] == '<' && "<string>"@[1] == 's' && "<string>"@[7] == '>',
        "</string>"@[8] == '>',
        "<integer>"@[0] == '<' && "<integer>"@[1] == 'i' && "<integer>"@[8] == '>',
        "</integer>"@[9] == '>',
        "<true/>"@[0] == '<' && "<true/>"@[1] == 't' && "<true/>"@[6] == '>',
        "<false/>"@[0] == '<' && "<false/>"@[1] == 'f' && "<false/>"@[7] == '>',
        "<dict>"@[0] == '<' && "<dict>"@[1] == 'd' && "<dict>"@[5] == '>',
        "</dict>"@[0] == '<' && "</dict>"@[1] == '/' && "</dict>"@[2] == 'd' && "</dict>"@[6]
            == '>',
        "<array>"@[0] == '<' && "<array>"@[1] == 'a' && "<array>"@[6] == '>',
        "</array>"@[0] == '<' && "</array>"@[1] == '/' && "</array>"@[2] == 'a' && "</array>"@[7]
            == '>',
        forall|i: int| 0 <= i < 6 ==> "<dict>"@[i] != '\n' && "<dict>"@[i] != '\r',
        forall|i: int| 0 <= i < 7 ==> "</dict>"@[i] != '\n' && "</dict>"@[i] != '\r',
        forall|i: int| 0 <= i < 7 ==> "<array>"@[i] != '\n' && "<array>"@[i] != '\r',
        forall|i: int| 0 <= i < 8 ==> "</array>"@[i] != '\n' && "</array>"@[i] != '\r',
        forall|i: int| 0 <= i < 5 ==> "<key>"@[i] != '\n' && "<key>"@[i] != '\r',
        forall|i: int| 0 <= i < 6 ==> "</key>"@[i] != '\n' && "</key>"@[i] != '\r',
        forall|i: int| 0 <= i < 8 ==> "<string>"@[i] != '\n' && "<string>"@[i] != '\r',
        forall|i: int| 0 <= i < 9 ==> "</string>"@[i] != '\n' && "</string>"@[i] != '\r',
        forall|i: int| 0 <= i < 9 ==> "<integer>"@[i] != '\n' && "<integer>"@[i] != '\r',
        forall|i: int| 0 <= i < 10 ==> "</integer>"@[i] != '\n' && "</integer>"@[i] != '\r',
        forall|i: int| 0 <= i < 7 ==> "<true/>"@[i] != '\n' && "<true/>"@[i] != '\r',
        forall|i: int| 0 <= i < 8 ==> "<false/>"@[i] != '\n' && "<false/>"@[i] != '\r',
{
    reveal_strlit("<dict>");
    reveal_strlit("</dict>");
    reveal_strlit("<array>");
    reveal_strlit("</array>");
    reveal_strlit("<key>");
    reveal_strlit("</key>");
    reveal_strlit("<string>");
    reveal_strlit("</string>");
    reveal_strlit("<integer>");
    reveal_strlit("</integer>");
    reveal_strlit("<true/>");
    reveal_strlit("<false/>");
    reveal_strlit("    ");
    reveal_strlit("        ");
}

proof fn lemma_key_lits()
    ensures
        text_ok("Label"@) && text_ok("Program"@) && text_ok("ProgramArguments"@),
        text_ok("StartInterval"@) && text_ok("ThrottleInterval"@) && text_ok("RunAtLoad"@),
        text_ok("KeepAlive"@) && text_ok("AbandonProcessGroup"@) && text_ok("EnablePressuredExit"@),
        text_ok("EnableTransactions"@) && text_ok("EventMonitor"@) && text_ok("StandardOutPath"@),
        text_ok("StandardErrorPath"@) && text_ok("WorkingDirectory"@) && text_ok("POSIXSpawnType"@),
        text_ok("LimitLoadToSessionType"@) && text_ok("AssociatedBundleIdentifiers"@),
        text_ok("EnvironmentVariables"@),
        "Label"@.len() == 5 && "Label"@[0] == 'L',
        "Program"@.len() == 7 && "Program"@[0] == 'P',
        "ProgramArguments"@.len() == 16 && "ProgramArguments"@[0] == 'P',
        "StartInterval"@.len() == 13 && "StartInterval"@[0] == 'S',
        "ThrottleInterval"@.len() == 16 && "ThrottleInterval"@[0] == 'T',
        "RunAtLoad"@.len() == 9 && "RunAtLoad"@[0] == 'R',
        "KeepAlive"@.len() == 9 && "KeepAlive"@[0] == 'K',
        "AbandonProcessGroup"@.len() == 19 && "AbandonProcessGroup"@[0] == 'A',
        "EnablePressuredExit"@.len() == 19 && "EnablePressuredExit"@[0] == 'E',
        "EnableTransactions"@.len() == 18 && "EnableTransactions"@[0] == 'E',
        "EventMonitor"@.len() == 12 && "EventMonitor"@[0] == 'E',
        "StandardOutPath"@.len() == 15 && "StandardOutPath"@[0] == 'S',
        "StandardErrorPath"@.len() == 17 && "StandardErrorPath"@[0] == 'S',
        "WorkingDirectory"@.len() == 16 && "WorkingDirectory"@[0] == 'W',
        "POSIXSpawnType"@.len() == 14 && "POSIXSpawnType"@[0] == 'P',
        "LimitLoadToSessionType"@.len() == 22 && "LimitLoadToSessionType"@[0] == 'L',
        "AssociatedBundleIdentifiers"@.len() == 27 && "AssociatedBundleIdentifiers"@[0] == 'A',
        "EnvironmentVariables"@.len() == 20 && "EnvironmentVariables"@[0] == 'E',
{
    reveal_strlit("Label");
    reveal_strlit("Program");
    reveal_strlit("ProgramArguments");
    reveal_strlit("StartInterval");
    reveal_strlit("ThrottleInterval");
    reveal_strlit("RunAtLoad");
    reveal_strlit("KeepAlive");
    reveal_strlit("AbandonProcessGroup");
    reveal_strlit("EnablePressuredExit");
    reveal_strlit("EnableTransactions");
    reveal_strlit("EventMonitor");
    reveal_strlit("StandardOutPath");
    reveal_strlit("StandardErrorPath");
    reveal_strlit("WorkingDirectory");
    reveal_strlit("POSIXSpawnType");
    reveal_strlit("LimitLoadToSessionType");
    reveal_strlit("AssociatedBundleIdentifiers");
    reveal_strlit("EnvironmentVariables");
}

/// Running lines distributes over concatenation.
pub proof fn lemma_run_append(st: DecState, a: Seq<Seq<char>>, b: Seq<Seq<char>>)
    ensures
        run_lines(st, a + b) == run_lines(run_lines(st, a), b),
    decreases a.len(),
{
    if a.len() == 0 {
        assert(a + b =~= b);
    } else {
        assert((a + b)[0] == a[0]);
        assert((a + b).drop_first() =~= a.drop_first() + b);
        lemma_run_append(spec_step(st, a[0]), a.drop_first(), b);
    }
}

proof fn lemma_run1(st: DecState, a: Seq<char>)
    ensures
        run_lines(st, seq![a]) == spec_step(st, a),
{
    assert(seq![a][0] == a);
    assert(seq![a].drop_first() =~= Seq::<Seq<char>>::empty());
    assert(run_lines(spec_step(st, a), Seq::<Seq<char>>::empty()) == spec_step(st, a));
}

proof fn lemma_run3(st: DecState, a: Seq<char>, b: Seq<char>, c: Seq<char>)
    ensures
        run_lines(st, seq![a, b, c]) == spec_step(spec_step(spec_step(st, a), b), c),
{
    assert(seq![a, b, c][0] == a);
    assert(seq![a, b, c].drop_first() =~= seq![b, c]);
    assert(run_lines(st, seq![a, b, c]) == run_lines(spec_step(st, a), seq![b, c]));
    lemma_run2(spec_step(st, a), b, c);
}

proof fn lemma_run2(st: DecState, a: Seq<char>, b: Seq<char>)
    ensures
        run_lines(st, seq![a, b]) == spec_step(spec_step(st, a), b),
{
    assert(seq![a, b][0] == a);
    assert(seq![a, b].drop_first() =~= seq![b]);
    assert(run_lines(st, seq![a, b]) == run_lines(spec_step(st, a), seq![b]));
    lemma_run1(spec_step(st, a), b);
}

/// The trimmed body of a key line, and how the decoder reads it.
proof fn lemma_step_key_line(st: DecState, name: Seq<char>)
    requires
        st.in_dict,
        !st.collecting_env,
    ensures
        spec_step(st, key_line(name)) == (DecState { current_key: name, ..st }),
        line_ok(key_line(name)) <== text_ok(name),
{
    lemma_lits();
    let core = core_key(name);
    assert(core[0] == '<' && core.last() == '>');
    assert(!is_space('<') && !is_space('>'));
    lemma_trim_concat("    "@, core);
    assert(key_line(name) == "    "@ + core);
    let line = spec_trim(key_line(name));
    assert(line == core);
    assert(core.len() == 11 + name.len());
    assert(line != "<dict>"@ && line != "</dict>"@ && line != "<array>"@ && line != "</array>"@);
    assert(key_form(line)) by {
        assert(line.take(5) =~= "<key>"@);
        assert(line.skip(line.len() - 6) =~= "</key>"@);
    }
    assert(key_inner(line) =~= name);
    assert(spec_step(st, key_line(name)) == (DecState { current_key: name, ..st }));
    if text_ok(name) {
        assert forall|i: int| 0 <= i < key_line(name).len() implies key_line(name)[i] != '\n' by {
            if 4 <= i < 9 {
                assert(key_line(name)[i] == "<key>"@[i - 4]);
            } else if 9 <= i < 9 + name.len() {
                assert(key_line(name)[i] == name[i - 9]);
            } else if i >= 9 + name.len() {
                assert(key_line(name)[i] == "</key>"@[i - 9 - name.len()]);
            }
        }
        assert(key_line(name).last() == '>');
    }
}

/// How the decoder reads a scalar string value line.
proof fn lemma_step_string_value(st: DecState, s: Seq<char>)
    requires
        st.in_dict,
        !st.collecting_env,
        !st.collecting_array,
        st.current_key.len() > 0,
    ensures
        spec_step(st, string_value_line(s)) == (DecState {
            doc: scalar_assign(st.doc, st.current_key, core_string(s)),
            current_key: Seq::<char>::empty(),
            ..st
        }),
        string_form(core_string(s)),
        str_inner(core_string(s)) == s,
        line_ok(string_value_line(s)) <== text_ok(s),
{
    lemma_lits();
    let core = core_string(s);
    assert(core[0] == '<' && core.last() == '>');
    assert(!is_space('<') && !is_space('>'));
    lemma_trim_concat("    "@, core);
    let line = spec_trim(string_value_line(s));
    assert(line == core);
    assert(core.len() == 17 + s.len());
    assert(line != "<dict>"@ && line != "</dict>"@ && line != "<array>"@ && line != "</array>"@);
    assert(!key_form(line)) by {
        if key_form(line) {
            assert(line.take(5)[1] == "<key>"@[1]);
            assert(line[1] == 's');
        }
    }
    assert(string_form(line)) by {
        assert(line.take(8) =~= "<string>"@);
        assert(line.skip(line.len() - 9) =~= "</string>"@);
    }
    assert(str_inner(line) =~= s);
    if text_ok(s) {
        assert forall|i: int| 0 <= i < string_value_line(s).len() implies string_value_line(s)[i]
            != '\n' by {
            let l = string_value_line(s);
            if 4 <= i < 12 {
                assert(l[i] == "<string>"@[i - 4]);
            } else if 12 <= i < 12 + s.len() {
                assert(l[i] == s[i - 12]);
            } else if i >= 12 + s.len() {
                assert(l[i] == "</string>"@[i - 12 - s.len()]);
            }
        }
        assert(string_value_line(s).last() == '>');
    }
}

/// How the decoder reads a string element line inside an array.
proof fn lemma_step_array_elem(st: DecState, s: Seq<char>)
    requires
        st.in_dict,
        !st.collecting_env,
        st.collecting_array,
        st.current_key.len() > 0,
    ensures
        spec_step(st, array_elem_line(s)) == ({
            let st1 = DecState {
                doc: scalar_assign(st.doc, st.current_key, core_string(s)),
                ..st
            };
            if st.array_type == "ProgramArguments"@ {
                DecState { program_args: st1.program_args.push(s), ..st1 }
            } else if st.array_type == "AssociatedBundleIdentifiers"@ {
                DecState { bundle_ids: st1.bundle_ids.push(s), ..st1 }
            } else if st.array_type == "LimitLoadToSessionType"@ {
                DecState { session_types: st1.session_types.push(s), ..st1 }
            } else {
                st1
            }
        }),
        string_form(core_string(s)),
        str_inner(core_string(s)) == s,
        line_ok(array_elem_line(s)) <== text_ok(s),
{
    lemma_lits();
    let core = core_string(s);
    assert(core[0] == '<' && core.last() == '>');
    assert(!is_space('<') && !is_space('>'));
    lemma_trim_concat("        "@, core);
    let line = spec_trim(array_elem_line(s));
    assert(line == core);
    assert(core.len() == 17 + s.len());
    assert(line != "<dict>"@ && line != "</dict>"@ && line != "<array>"@ && line != "</array>"@);
    assert(!key_form(line)) by {
        if key_form(line) {
            assert(line.take(5)[1] == "<key>"@[1]);
            assert(line[1] == 's');
        }
    }
    assert(string_form(line)) by {
        assert(line.take(8) =~= "<string>"@);
        assert(line.skip(line.len() - 9) =~= "</string>"@);
    }
    assert(str_inner(line) =~= s);
    if text_ok(s) {
        assert forall|i: int| 0 <= i < array_elem_line(s).len() implies array_elem_line(s)[i]
            != '\n' by {
            let l = array_elem_line(s);
            if 8 <= i < 16 {
                assert(l[i] == "<string>"@[i - 8]);
            } else if 16 <= i < 16 + s.len() {
                assert(l[i] == s[i - 16]);
            } else if i >= 16 + s.len() {
                assert(l[i] == "</string>"@[i - 16 - s.len()]);
            }
        }
        assert(array_elem_line(s).last() == '>');
    }
}

/// How the decoder reads an integer value line.
proof fn lemma_step_integer_value(st: DecState, n: i32)
    requires
        st.in_dict,
        !st.collecting_env,
        !st.collecting_array,
        st.current_key.len() > 0,
    ensures
        spec_step(st, integer_value_line(n)) == (DecState {
            doc: scalar_assign(st.doc, st.current_key, core_integer(n)),
            current_key: Seq::<char>::empty(),
            ..st
        }),
        integer_form(core_integer(n)),
        int_inner(core_integer(n)) == spec_i32_chars(n as int),
        !string_form(core_integer(n)),
        line_ok(integer_value_line(n)),
{
    lemma_lits();
    lemma_i32_chars_line_ok(n as int);
    let digits = spec_i32_chars(n as int);
    let core = core_integer(n);
    assert(core[0] == '<' && core.last() == '>');
    assert(!is_space('<') && !is_space('>'));
    lemma_trim_concat("    "@, core);
    let line = spec_trim(integer_value_line(n));
    assert(line == core);
    assert(core.len() == 19 + digits.len());
    assert(line != "<dict>"@ && line != "</dict>"@ && line != "<array>"@ && line != "</array>"@);
    assert(!key_form(line)) by {
        if key_form(line) {
            assert(line.take(5)[1] == "<key>"@[1]);
            assert(line[1] == 'i');
        }
    }
    assert(!string_form(line)) by {
        if string_form(line) {
            assert(line.take(8)[1] == "<string>"@[1]);
            assert(line[1] == 'i');
        }
    }
    assert(integer_form(line)) by {
        assert(line.take(9) =~= "<integer>"@);
        assert(line.skip(line.len() - 10) =~= "</integer>"@);
    }
    assert(int_inner(line) =~= digits);
    assert forall|i: int| 0 <= i < integer_value_line(n).len() implies integer_value_line(n)[i]
        != '\n' by {
        let l = integer_value_line(n);
        if 4 <= i < 13 {
            assert(l[i] == "<integer>"@[i - 4]);
        } else if 13 <= i < 13 + digits.len() {
            assert(l[i] == digits[i - 13]);
        } else if i >= 13 + digits.len() {
            assert(l[i] == "</integer>"@[i - 13 - digits.len()]);
        }
    }
    assert(integer_value_line(n).last() == '>');
}

/// How the decoder reads a boolean value line.
proof fn lemma_step_bool_value(st: DecState, b: bool)
    requires
        st.in_dict,
        !st.collecting_env,
        !st.collecting_array,
        st.current_key.len() > 0,
    ensures
        spec_step(st, bool_value_line(b)) == (DecState {
            doc: scalar_assign(st.doc, st.current_key, bool_core(b)),
            current_key: Seq::<char>::empty(),
            ..st
        }),
        (bool_core(b) == "<true/>"@) == b,
        !string_form(bool_core(b)),
        !integer_form(bool_core(b)),
        line_ok(bool_value_line(b)),
{
    lemma_lits();
    let core = bool_core(b);
    assert(core[0] == '<' && core.last() == '>');
    assert(!is_space('<') && !is_space('>'));
    lemma_trim_concat("    "@, core);
    let line = spec_trim(bool_value_line(b));
    assert(line == core);
    assert(core.len() <= 8);
    assert(line != "<dict>"@ && line != "</dict>"@ && line != "<array>"@ && line != "</array>"@)
        by {
        if b {
            assert(core[1] == 't');
        } else {
            assert(core[1] == 'f');
        }
    }
    assert(!key_form(line)) by {
        if key_form(line) {
            assert(line.take(5)[1] == "<key>"@[1]);
        }
    }
    assert(!string_form(line));
    assert(!integer_form(line));
    if !b {
        assert(bool_core(b) != "<true/>"@);
    }
    assert forall|i: int| 0 <= i < bool_value_line(b).len() implies bool_value_line(b)[i] != '\n' by {
        let l = bool_value_line(b);
        if i >= 4 {
            assert(l[i] == core[i - 4]);
        }
    }
    assert(bool_value_line(b).last() == '>');
}

/// The separator line between attributes leaves the state alone once the
/// pending key is cleared.
proof fn lemma_step_blank(st: DecState)
    requires
        st.current_key.len() == 0,
        !st.collecting_env,
    ensures
        spec_step(st, blank_line()) == st,
        line_ok(blank_line()),
{
    lemma_lits();
    lemma_trim_spaces(blank_line());
    let line = spec_trim(blank_line());
    assert(line.len() == 0);
    assert(line != "<dict>"@ && line != "</dict>"@ && line != "<array>"@ && line != "</array>"@);
    assert(!key_form(line));
    assert(!string_form(line));
    assert(blank_line().last() == ' ');
}

/// How the decoder reads the array frame lines.
proof fn lemma_step_array_open(st: DecState)
    requires
        !st.collecting_env,
    ensures
        spec_step(st, array_open_line()) == ({
            let st1 = DecState { collecting_array: true, array_type: st.current_key, ..st };
            if st.current_key == "ProgramArguments"@ {
                DecState { program_args: Seq::empty(), ..st1 }
            } else if st.current_key == "AssociatedBundleIdentifiers"@ {
                DecState { bundle_ids: Seq::empty(), ..st1 }
            } else if st.current_key == "LimitLoadToSessionType"@ {
                DecState { session_types: Seq::empty(), ..st1 }
            } else {
                st1
            }
        }),
        line_ok(array_open_line()),
{
    lemma_lits();
    lemma_trim_concat("    "@, "<array>"@);
    let line = spec_trim(array_open_line());
    assert(line == "<array>"@);
    assert(line != "<dict>"@ && line != "</dict>"@);
    assert forall|i: int| 0 <= i < array_open_line().len() implies array_open_line()[i] != '\n' by {
        if i >= 4 {
            assert(array_open_line()[i] == "<array>"@[i - 4]);
        }
    }
    assert(array_open_line().last() == '>');
}

proof fn lemma_step_array_close(st: DecState)
    requires
        !st.collecting_env,
    ensures
        spec_step(st, array_close_line()) == ({
            let doc1 = if st.array_type == "ProgramArguments"@ {
                PlistView { program_arguments: Some(st.program_args), ..st.doc }
            } else if st.array_type == "AssociatedBundleIdentifiers"@ {
                PlistView { associated_bundle_identifiers: Some(st.bundle_ids), ..st.doc }
            } else if st.array_type == "LimitLoadToSessionType"@ {
                PlistView {
                    limit_load_to_session_type: Some(SessionTypeView::Multiple(st.session_types)),
                    ..st.doc
                }
            } else {
                st.doc
            };
            DecState {
                doc: doc1,
                collecting_array: false,
                current_key: Seq::<char>::empty(),
                ..st
            }
        }),
        line_ok(array_close_line()),
{
    lemma_lits();
    lemma_trim_concat("    "@, "</array>"@);
    let line = spec_trim(array_close_line());
    assert(line == "</array>"@);
    assert(line != "<dict>"@ && line != "</dict>"@ && line != "<array>"@);
    assert forall|i: int| 0 <= i < array_close_line().len() implies array_close_line()[i] != '\n' by {
        if i >= 4 {
            assert(array_close_line()[i] == "</array>"@[i - 4]);
        }
    }
    assert(array_close_line().last() == '>');
}

/// How the decoder reads the environment sub-dictionary frame lines.
proof fn lemma_step_dict_open(st: DecState)
    requires
        !st.collecting_env,
        st.current_key == "EnvironmentVariables"@,
    ensures
        spec_step(st, dict_open_line()) == (DecState { collecting_env: true, ..st }),
        line_ok(dict_open_line()),
{
    lemma_lits();
    lemma_trim_concat("    "@, "<dict>"@);
    let line = spec_trim(dict_open_line());
    assert(line == "<dict>"@);
    assert forall|i: int| 0 <= i < dict_open_line().len() implies dict_open_line()[i] != '\n' by {
        if i >= 4 {
            assert(dict_open_line()[i] == "<dict>"@[i - 4]);
        }
    }
    assert(dict_open_line().last() == '>');
}

proof fn lemma_step_dict_close(st: DecState)
    requires
        st.collecting_env,
    ensures
        spec_step(st, dict_close_line()) == (DecState {
            doc: PlistView { environment_variables: Some(st.env), ..st.doc },
            collecting_env: false,
            current_key: Seq::<char>::empty(),
            ..st
        }),
        line_ok(dict_close_line()),
{
    lemma_lits();
    lemma_trim_concat("    "@, "</dict>"@);
    let line = spec_trim(dict_close_line());
    assert(line == "</dict>"@);
    assert(line != "<dict>"@);
    assert forall|i: int| 0 <= i < dict_close_line().len() implies dict_close_line()[i] != '\n' by {
        if i >= 4 {
            assert(dict_close_line()[i] == "</dict>"@[i - 4]);
        }
    }
    assert(dict_close_line().last() == '>');
}

/// How the decoder reads a key line of the environment sub-dictionary.
proof fn lemma_step_env_key(st: DecState, k: Seq<char>)
    requires
        st.collecting_env,
    ensures
        spec_step(st, env_key_line(k)) == (DecState { env_key: k, ..st }),
        line_ok(env_key_line(k)) <== text_ok(k),
{
    lemma_lits();
    let core = core_key(k);
    assert(core[0] == '<' && core.last() == '>');
    assert(!is_space('<') && !is_space('>'));
    lemma_trim_concat("        "@, core);
    let line = spec_trim(env_key_line(k));
    assert(line == core);
    assert(core.len() == 11 + k.len());
    assert(line != "<dict>"@ && line != "</dict>"@ && line != "<array>"@ && line != "</array>"@);
    assert(key_form(line)) by {
        assert(line.take(5) =~= "<key>"@);
        assert(line.skip(line.len() - 6) =~= "</key>"@);
    }
    assert(key_inner(line) =~= k);
    if text_ok(k) {
        assert forall|i: int| 0 <= i < env_key_line(k).len() implies env_key_line(k)[i] != '\n' by {
            let l = env_key_line(k);
            if 8 <= i < 13 {
                assert(l[i] == "<key>"@[i - 8]);
            } else if 13 <= i < 13 + k.len() {
                assert(l[i] == k[i - 13]);
            } else if i >= 13 + k.len() {
                assert(l[i] == "</key>"@[i - 13 - k.len()]);
            }
        }
        assert(env_key_line(k).last() == '>');
    }
}

/// How the decoder reads a value line of the environment sub-dictionary.
proof fn lemma_step_env_value(st: DecState, v: Seq<char>)
    requires
        st.collecting_env,
    ensures
        spec_step(st, env_value_line(v)) == (DecState {
            env: env_upsert(st.env, st.env_key, v),
            env_key: Seq::<char>::empty(),
            ..st
        }),
        line_ok(env_value_line(v)) <== text_ok(v),
{
    lemma_lits();
    let core = core_string(v);
    assert(core[0] == '<' && core.last() == '>');
    assert(!is_space('<') && !is_space('>'));
    lemma_trim_concat("        "@, core);
    let line = spec_trim(env_value_line(v));
    assert(line == core);
    assert(core.len() == 17 + v.len());
    assert(line != "<dict>"@ && line != "</dict>"@ && line != "<array>"@ && line != "</array>"@);
    assert(!key_form(line)) by {
        if key_form(line) {
            assert(line.take(5)[1] == "<key>"@[1]);
            assert(line[1] == 's');
        }
    }
    assert(string_form(line)) by {
        assert(line.take(8) =~= "<string>"@);
        assert(line.skip(line.len() - 9) =~= "</string>"@);
    }
    assert(str_inner(line) =~= v);
    if text_ok(v) {
        assert forall|i: int| 0 <= i < env_value_line(v).len() implies env_value_line(v)[i] != '\n' by {
            let l = env_value_line(v);
            if 8 <= i < 16 {
                assert(l[i] == "<string>"@[i - 8]);
            } else if 16 <= i < 16 + v.len() {
                assert(l[i] == v[i - 16]);
            } else if i >= 16 + v.len() {
                assert(l[i] == "</string>"@[i - 16 - v.len()]);
            }
        }
        assert(env_value_line(v).last() == '>');
    }
}

/// Every line of the sequence is fit for joining.
pub open spec fn lines_ok(ls: Seq<Seq<char>>) -> bool {
    forall|k: int| 0 <= k < ls.len() ==> line_ok(#[trigger] ls[k])
}

proof fn lemma_lines_ok_concat(a: Seq<Seq<char>>, b: Seq<Seq<char>>)
    requires
        lines_ok(a),
        lines_ok(b),
    ensures
        lines_ok(a + b),
{
    assert forall|k: int| 0 <= k < (a + b).len() implies line_ok(#[trigger] (a + b)[k]) by {
        if k < a.len() {
            assert((a + b)[k] == a[k]);
        } else {
            assert((a + b)[k] == b[k - a.len()]);
        }
    }
}

/// The lines of one scalar string attribute, run from a clean state.
proof fn lemma_block_string(st: DecState, name: Seq<char>, s: Seq<char>)
    requires
        clean(st),
        name.len() > 0,
    ensures
        run_lines(st, string_attr_lines(name, Some(s))) == (DecState {
            doc: scalar_assign(st.doc, name, core_string(s)),
            ..st
        }),
        string_form(core_string(s)),
        str_inner(core_string(s)) == s,
{
    let kl = key_line(name);
    let vl = string_value_line(s);
    let bl = blank_line();
    assert(string_attr_lines(name, Some(s)) == seq![kl, vl, bl]);
    lemma_run3(st, kl, vl, bl);
    lemma_step_key_line(st, name);
    let st1 = DecState { current_key: name, ..st };
    lemma_step_string_value(st1, s);
    let st2 = DecState {
        doc: scalar_assign(st.doc, name, core_string(s)),
        current_key: Seq::<char>::empty(),
        ..st1
    };
    assert(spec_step(st1, vl) == st2);
    lemma_step_blank(st2);
    assert(st.current_key =~= Seq::<char>::empty());
    assert(st2 =~= (DecState { doc: scalar_assign(st.doc, name, core_string(s)), ..st }));
}

/// The lines of one integer attribute, run from a clean state.
proof fn lemma_block_int(st: DecState, name: Seq<char>, n: i32)
    requires
        clean(st),
        name.len() > 0,
    ensures
        run_lines(st, int_attr_lines(name, Some(n))) == (DecState {
            doc: scalar_assign(st.doc, name, core_integer(n)),
            ..st
        }),
        integer_form(core_integer(n)),
        !string_form(core_integer(n)),
        int_inner(core_integer(n)) == spec_i32_chars(n as int),
{
    let kl = key_line(name);
    let vl = integer_value_line(n);
    let bl = blank_line();
    assert(int_attr_lines(name, Some(n)) == seq![kl, vl, bl]);
    lemma_run3(st, kl, vl, bl);
    lemma_step_key_line(st, name);
    let st1 = DecState { current_key: name, ..st };
    lemma_step_integer_value(st1, n);
    let st2 = DecState {
        doc: scalar_assign(st.doc, name, core_integer(n)),
        current_key: Seq::<char>::empty(),
        ..st1
    };
    assert(spec_step(st1, vl) == st2);
    lemma_step_blank(st2);
    assert(st.current_key =~= Seq::<char>::empty());
    assert(st2 =~= (DecState { doc: scalar_assign(st.doc, name, core_integer(n)), ..st }));
}

/// The lines of one boolean attribute, run from a clean state.
proof fn lemma_block_bool(st: DecState, name: Seq<char>, b: bool)
    requires
        clean(st),
        name.len() > 0,
    ensures
        run_lines(st, bool_attr_lines(name, Some(b))) == (DecState {
            doc: scalar_assign(st.doc, name, bool_core(b)),
            ..st
        }),
        (bool_core(b) == "<true/>"@) == b,
        !string_form(bool_core(b)),
        !integer_form(bool_core(b)),
{
    let kl = key_line(name);
    let vl = bool_value_line(b);
    let bl = blank_line();
    assert(bool_attr_lines(name, Some(b)) == seq![kl, vl, bl]);
    lemma_run3(st, kl, vl, bl);
    lemma_step_key_line(st, name);
    let st1 = DecState { current_key: name, ..st };
    lemma_step_bool_value(st1, b);
    let st2 = DecState {
        doc: scalar_assign(st.doc, name, bool_core(b)),
        current_key: Seq::<char>::empty(),
        ..st1
    };
    assert(spec_step(st1, vl) == st2);
    lemma_step_blank(st2);
    assert(st.current_key =~= Seq::<char>::empty());
    assert(st2 =~= (DecState { doc: scalar_assign(st.doc, name, bool_core(b)), ..st }));
}

/// The element lines of a program-arguments array push every element.
#[verifier::rlimit(100)]
proof fn lemma_elems_args(st: DecState, vs: Seq<Seq<char>>)
    requires
        st.in_dict,
        !st.collecting_env,
        st.collecting_array,
        st.current_key == "ProgramArguments"@,
        st.array_type == "ProgramArguments"@,
    ensures
        run_lines(st, array_elem_lines(vs)) == (DecState {
            program_args: st.program_args + vs,
            ..st
        }),
    decreases vs.len(),
{
    lemma_key_lits();
    if vs.len() == 0 {
        assert(array_elem_lines(vs) =~= Seq::<Seq<char>>::empty());
        assert(st.program_args + vs =~= st.program_args);
        assert((DecState { program_args: st.program_args + vs, ..st }) =~= st);
    } else {
        let v0 = vs[0];
        assert(array_elem_lines(vs)[0] == array_elem_line(v0));
        assert(array_elem_lines(vs).drop_first() =~= array_elem_lines(vs.drop_first()));
        lemma_step_array_elem(st, v0);
        assert("ProgramArguments"@.len() > 0);
        assert(scalar_assign(st.doc, "ProgramArguments"@, core_string(v0)) == st.doc);
        let st1 = DecState { program_args: st.program_args.push(v0), ..st };
        assert(spec_step(st, array_elem_line(v0)) == st1);
        lemma_elems_args(st1, vs.drop_first());
        assert(run_lines(st, array_elem_lines(vs)) == run_lines(
            st1,
            array_elem_lines(vs.drop_first()),
        ));
        assert(st.program_args.push(v0) + vs.drop_first() =~= st.program_args + vs);
    }
}

/// The element lines of a bundle-identifiers array push every element.
#[verifier::rlimit(100)]
proof fn lemma_elems_bundles(st: DecState, vs: Seq<Seq<char>>)
    requires
        st.in_dict,
        !st.collecting_env,
        st.collecting_array,
        st.current_key == "AssociatedBundleIdentifiers"@,
        st.array_type == "AssociatedBundleIdentifiers"@,
    ensures
        run_lines(st, array_elem_lines(vs)) == (DecState { bundle_ids: st.bundle_ids + vs, ..st }),
    decreases vs.len(),
{
    lemma_key_lits();
    if vs.len() == 0 {
        assert(array_elem_lines(vs) =~= Seq::<Seq<char>>::empty());
        assert(st.bundle_ids + vs =~= st.bundle_ids);
        assert((DecState { bundle_ids: st.bundle_ids + vs, ..st }) =~= st);
    } else {
        let v0 = vs[0];
        assert(array_elem_lines(vs)[0] == array_elem_line(v0));
        assert(array_elem_lines(vs).drop_first() =~= array_elem_lines(vs.drop_first()));
        lemma_step_array_elem(st, v0);
        assert(scalar_assign(st.doc, "AssociatedBundleIdentifiers"@, core_string(v0)) == st.doc);
        let st1 = DecState { bundle_ids: st.bundle_ids.push(v0), ..st };
        assert(spec_step(st, array_elem_line(v0)) == st1);
        lemma_elems_bundles(st1, vs.drop_first());
        assert(run_lines(st, array_elem_lines(vs)) == run_lines(
            st1,
            array_elem_lines(vs.drop_first()),
        ));
        assert(st.bundle_ids.push(v0) + vs.drop_first() =~= st.bundle_ids + vs);
    }
}

/// The element lines of a session-type array push every element; each one
/// also lands as a transient single value, which the closing tag overwrites.
#[verifier::rlimit(100)]
proof fn lemma_elems_sessions(st: DecState, vs: Seq<Seq<char>>)
    requires
        st.in_dict,
        !st.collecting_env,
        st.collecting_array,
        st.current_key == "LimitLoadToSessionType"@,
        st.array_type == "LimitLoadToSessionType"@,
    ensures
        run_lines(st, array_elem_lines(vs)) == (DecState {
            doc: if vs.len() > 0 {
                PlistView {
                    limit_load_to_session_type: Some(SessionTypeView::Single(vs.last())),
                    ..st.doc
                }
            } else {
                st.doc
            },
            session_types: st.session_types + vs,
            ..st
        }),
    decreases vs.len(),
{
    lemma_key_lits();
    if vs.len() == 0 {
        assert(array_elem_lines(vs) =~= Seq::<Seq<char>>::empty());
        assert(st.session_types + vs =~= st.session_types);
        assert((DecState { doc: st.doc, session_types: st.session_types + vs, ..st }) =~= st);
    } else {
        let v0 = vs[0];
        assert(array_elem_lines(vs)[0] == array_elem_line(v0));
        assert(array_elem_lines(vs).drop_first() =~= array_elem_lines(vs.drop_first()));
        lemma_step_array_elem(st, v0);
        let doc1 = PlistView {
            limit_load_to_session_type: Some(SessionTypeView::Single(v0)),
            ..st.doc
        };
        assert(scalar_assign(st.doc, "LimitLoadToSessionType"@, core_string(v0)) == doc1);
        let st1 = DecState { doc: doc1, session_types: st.session_types.push(v0), ..st };
        assert(spec_step(st, array_elem_line(v0)) == st1);
        lemma_elems_sessions(st1, vs.drop_first());
        assert(run_lines(st, array_elem_lines(vs)) == run_lines(
            st1,
            array_elem_lines(vs.drop_first()),
        ));
        assert(st.session_types.push(v0) + vs.drop_first() =~= st.session_types + vs);
        if vs.drop_first().len() > 0 {
            assert(vs.drop_first().last() == vs.last());
        }
    }
}

/// A whole program-arguments block: the committed list is the elements.
proof fn lemma_block_args(st: DecState, vs: Seq<Seq<char>>)
    requires
        clean(st),
    ensures
        run_lines(st, array_attr_lines("ProgramArguments"@, Some(vs))) == (DecState {
            doc: PlistView { program_arguments: Some(vs), ..st.doc },
            program_args: vs,
            array_type: "ProgramArguments"@,
            ..st
        }),
{
    lemma_key_lits();
    let name = "ProgramArguments"@;
    let kl = key_line(name);
    let lines = array_attr_lines(name, Some(vs));
    let open2 = seq![kl, array_open_line()];
    let close2 = seq![array_close_line(), blank_line()];
    assert(lines == open2 + array_elem_lines(vs) + close2);
    lemma_run_append(st, open2 + array_elem_lines(vs), close2);
    lemma_run_append(st, open2, array_elem_lines(vs));
    assert((open2 + array_elem_lines(vs)) + close2 =~= open2 + array_elem_lines(vs) + close2);
    lemma_run2(st, kl, array_open_line());
    lemma_step_key_line(st, name);
    let st1 = DecState { current_key: name, ..st };
    lemma_step_array_open(st1);
    let st2 = DecState {
        collecting_array: true,
        array_type: name,
        program_args: Seq::empty(),
        ..st1
    };
    assert(spec_step(st1, array_open_line()) == st2);
    lemma_elems_args(st2, vs);
    let st3 = DecState { program_args: Seq::<Seq<char>>::empty() + vs, ..st2 };
    assert(Seq::<Seq<char>>::empty() + vs =~= vs);
    lemma_run2(st3, array_close_line(), blank_line());
    lemma_step_array_close(st3);
    let st4 = DecState {
        doc: PlistView { program_arguments: Some(vs), ..st.doc },
        collecting_array: false,
        current_key: Seq::<char>::empty(),
        ..st3
    };
    assert(spec_step(st3, array_close_line()) == st4);
    lemma_step_blank(st4);
    assert(st.current_key =~= Seq::<char>::empty());
    assert(st4 =~= (DecState {
        doc: PlistView { program_arguments: Some(vs), ..st.doc },
        program_args: vs,
        array_type: name,
        ..st
    }));
}

/// A whole bundle-identifiers block: the committed list is the elements.
proof fn lemma_block_bundles(st: DecState, vs: Seq<Seq<char>>)
    requires
        clean(st),
    ensures
        run_lines(st, array_attr_lines("AssociatedBundleIdentifiers"@, Some(vs))) == (DecState {
            doc: PlistView { associated_bundle_identifiers: Some(vs), ..st.doc },
            bundle_ids: vs,
            array_type: "AssociatedBundleIdentifiers"@,
            ..st
        }),
{
    lemma_key_lits();
    let name = "AssociatedBundleIdentifiers"@;
    let kl = key_line(name);
    let lines = array_attr_lines(name, Some(vs));
    let open2 = seq![kl, array_open_line()];
    let close2 = seq![array_close_line(), blank_line()];
    assert(lines == open2 + array_elem_lines(vs) + close2);
    lemma_run_append(st, open2 + array_elem_lines(vs), close2);
    lemma_run_append(st, open2, array_elem_lines(vs));
    assert((open2 + array_elem_lines(vs)) + close2 =~= open2 + array_elem_lines(vs) + close2);
    lemma_run2(st, kl, array_open_line());
    lemma_step_key_line(st, name);
    let st1 = DecState { current_key: name, ..st };
    lemma_step_array_open(st1);
    let st2 = DecState {
        collecting_array: true,
        array_type: name,
        bundle_ids: Seq::empty(),
        ..st1
    };
    assert(spec_step(st1, array_open_line()) == st2);
    lemma_elems_bundles(st2, vs);
    let st3 = DecState { bundle_ids: Seq::<Seq<char>>::empty() + vs, ..st2 };
    assert(Seq::<Seq<char>>::empty() + vs =~= vs);
    lemma_run2(st3, array_close_line(), blank_line());
    lemma_step_array_close(st3);
    let st4 = DecState {
        doc: PlistView { associated_bundle_identifiers: Some(vs), ..st.doc },
        collecting_array: false,
        current_key: Seq::<char>::empty(),
        ..st3
    };
    assert(spec_step(st3, array_close_line()) == st4);
    lemma_step_blank(st4);
    assert(st.current_key =~= Seq::<char>::empty());
    assert(st4 =~= (DecState {
        doc: PlistView { associated_bundle_identifiers: Some(vs), ..st.doc },
        bundle_ids: vs,
        array_type: name,
        ..st
    }));
}

/// A whole multiple-sessions block: the closing tag commits all elements.
proof fn lemma_block_sessions(st: DecState, vs: Seq<Seq<char>>)
    requires
        clean(st),
    ensures
        run_lines(st, session_attr_lines(Some(SessionTypeView::Multiple(vs)))) == (DecState {
            doc: PlistView {
                limit_load_to_session_type: Some(SessionTypeView::Multiple(vs)),
                ..st.doc
            },
            session_types: vs,
            array_type: "LimitLoadToSessionType"@,
            ..st
        }),
{
    lemma_key_lits();
    let name = "LimitLoadToSessionType"@;
    let kl = key_line(name);
    let lines = session_attr_lines(Some(SessionTypeView::Multiple(vs)));
    let open2 = seq![kl, array_open_line()];
    let close2 = seq![array_close_line(), blank_line()];
    assert(lines == open2 + array_elem_lines(vs) + close2);
    lemma_run_append(st, open2 + array_elem_lines(vs), close2);
    lemma_run_append(st, open2, array_elem_lines(vs));
    assert((open2 + array_elem_lines(vs)) + close2 =~= open2 + array_elem_lines(vs) + close2);
    lemma_run2(st, kl, array_open_line());
    lemma_step_key_line(st, name);
    let st1 = DecState { current_key: name, ..st };
    lemma_step_array_open(st1);
    let st2 = DecState {
        collecting_array: true,
        array_type: name,
        session_types: Seq::empty(),
        ..st1
    };
    assert(spec_step(st1, array_open_line()) == st2);
    lemma_elems_sessions(st2, vs);
    let doc3 = if vs.len() > 0 {
        PlistView { limit_load_to_session_type: Some(SessionTypeView::Single(vs.last())), ..st.doc }
    } else {
        st.doc
    };
    let st3 = DecState { doc: doc3, session_types: Seq::<Seq<char>>::empty() + vs, ..st2 };
    assert(Seq::<Seq<char>>::empty() + vs =~= vs);
    lemma_run2(st3, array_close_line(), blank_line());
    lemma_step_array_close(st3);
    let st4 = DecState {
        doc: PlistView { limit_load_to_session_type: Some(SessionTypeView::Multiple(vs)), ..doc3 },
        collecting_array: false,
        current_key: Seq::<char>::empty(),
        ..st3
    };
    assert(spec_step(st3, array_close_line()) == st4);
    lemma_step_blank(st4);
    assert(st.current_key =~= Seq::<char>::empty());
    assert(st4 =~= (DecState {
        doc: PlistView {
            limit_load_to_session_type: Some(SessionTypeView::Multiple(vs)),
            ..st.doc
        },
        session_types: vs,
        array_type: name,
        ..st
    }));
}

/// The alternating key and value lines of the environment mapping append
/// every pair, keys being fresh.
proof fn lemma_env_pairs(st: DecState, ps: Seq<(Seq<char>, Seq<char>)>)
    requires
        st.collecting_env,
        forall|j: int, k: int| 0 <= j < k < ps.len() ==> ps[j].0 != ps[k].0,
        forall|j: int, k: int| 0 <= j < st.env.len() && 0 <= k < ps.len() ==> st.env[j].0 != ps[k].0,
    ensures
        run_lines(st, env_pair_lines(ps)) == (DecState {
            env: st.env + ps,
            env_key: if ps.len() == 0 {
                st.env_key
            } else {
                Seq::<char>::empty()
            },
            ..st
        }),
    decreases ps.len(),
{
    if ps.len() == 0 {
        assert(env_pair_lines(ps) =~= Seq::<Seq<char>>::empty());
        assert(st.env + ps =~= st.env);
        assert((DecState { env: st.env + ps, env_key: st.env_key, ..st }) =~= st);
    } else {
        let (k0, v0) = (ps[0].0, ps[0].1);
        let two = seq![env_key_line(k0), env_value_line(v0)];
        assert(env_pair_lines(ps) == two + env_pair_lines(ps.drop_first()));
        lemma_run_append(st, two, env_pair_lines(ps.drop_first()));
        lemma_run2(st, env_key_line(k0), env_value_line(v0));
        lemma_step_env_key(st, k0);
        let st1 = DecState { env_key: k0, ..st };
        lemma_step_env_value(st1, v0);
        assert(forall|j: int| 0 <= j < st.env.len() ==> st.env[j].0 != k0);
        crate::decode::lemma_env_upsert_missing(st.env, k0, v0);
        let st2 = DecState { env: st.env.push((k0, v0)), env_key: Seq::<char>::empty(), ..st1 };
        assert(env_upsert(st.env, k0, v0) =~= st.env.push((k0, v0))) by {
            assert((k0, v0) == ps[0]);
        }
        assert(spec_step(st1, env_value_line(v0)) == st2);
        assert(forall|j: int, k: int|
            0 <= j < k < ps.drop_first().len() ==> ps.drop_first()[j].0 != ps.drop_first()[k].0);
        assert forall|j: int, k: int|
            0 <= j < st2.env.len() && 0 <= k < ps.drop_first().len() implies st2.env[j].0
            != ps.drop_first()[k].0 by {
            if j < st.env.len() {
                assert(st2.env[j] == st.env[j]);
            } else {
                assert(st2.env[j] == (k0, v0));
                assert(ps.drop_first()[k] == ps[k + 1]);
            }
        }
        lemma_env_pairs(st2, ps.drop_first());
        assert(st.env.push((k0, v0)) + ps.drop_first() =~= st.env + ps) by {
            assert(st.env.push((k0, v0)) =~= st.env + seq![ps[0]]);
        }
    }
}

/// A whole environment block: the closing tag commits the accumulation.
proof fn lemma_block_env(st: DecState, ps: Seq<(Seq<char>, Seq<char>)>)
    requires
        clean(st),
        st.env.len() == 0,
        st.env_key.len() == 0,
        forall|j: int, k: int| 0 <= j < k < ps.len() ==> ps[j].0 != ps[k].0,
    ensures
        run_lines(st, env_attr_lines(Some(ps))) == (DecState {
            doc: PlistView { environment_variables: Some(ps), ..st.doc },
            env: ps,
            ..st
        }),
{
    lemma_key_lits();
    let name = "EnvironmentVariables"@;
    let kl = key_line(name);
    let lines = env_attr_lines(Some(ps));
    let open2 = seq![kl, dict_open_line()];
    let close2 = seq![dict_close_line(), blank_line()];
    assert(lines == open2 + env_pair_lines(ps) + close2);
    lemma_run_append(st, open2 + env_pair_lines(ps), close2);
    lemma_run_append(st, open2, env_pair_lines(ps));
    assert((open2 + env_pair_lines(ps)) + close2 =~= open2 + env_pair_lines(ps) + close2);
    lemma_run2(st, kl, dict_open_line());
    lemma_step_key_line(st, name);
    let st1 = DecState { current_key: name, ..st };
    lemma_step_dict_open(st1);
    let st2 = DecState { collecting_env: true, ..st1 };
    assert(spec_step(st1, dict_open_line()) == st2);
    lemma_env_pairs(st2, ps);
    let st3 = DecState {
        env: st.env + ps,
        env_key: if ps.len() == 0 {
            st.env_key
        } else {
            Seq::<char>::empty()
        },
        ..st2
    };
    assert(st.env + ps =~= ps);
    assert(st3.env_key =~= Seq::<char>::empty());
    lemma_run2(st3, dict_close_line(), blank_line());
    lemma_step_dict_close(st3);
    let st4 = DecState {
        doc: PlistView { environment_variables: Some(st3.env), ..st.doc },
        collecting_env: false,
        current_key: Seq::<char>::empty(),
        ..st3
    };
    assert(spec_step(st3, dict_close_line()) == st4);
    lemma_step_blank(st4);
    assert(st.current_key =~= Seq::<char>::empty());
    assert(st.env_key =~= Seq::<char>::empty());
    assert(st4 =~= (DecState {
        doc: PlistView { environment_variables: Some(ps), ..st.doc },
        env: ps,
        ..st
    }));
}

/// The opening frame: three inert heading lines, then the dictionary opens.
proof fn lemma_run_header()
    ensures
        run_lines(init_state(), header_lines()) == (DecState { in_dict: true, ..init_state() }),
        lines_ok(header_lines()),
{
    lemma_lits();
    lemma_key_lits();
    reveal_strlit("<?xml version=\"1.0\" encoding=\"UTF-8\"?>");
    reveal_strlit(
        "<!DOCTYPE plist PUBLIC \"-//Apple//DTD PLIST 1.0//EN\" \"http://www.apple.com/DTDs/PropertyList-1.0.dtd\">",
    );
    reveal_strlit("<plist version=\"1.0\">");
    let l0 = "<?xml version=\"1.0\" encoding=\"UTF-8\"?>"@;
    let l1 =
        "<!DOCTYPE plist PUBLIC \"-//Apple//DTD PLIST 1.0//EN\" \"http://www.apple.com/DTDs/PropertyList-1.0.dtd\">"@;
    let l2 = "<plist version=\"1.0\">"@;
    let l3 = "<dict>"@;
    assert(header_lines() == seq![l0, l1, l2, l3]);
    assert(seq![l0, l1, l2, l3].drop_first() =~= seq![l1, l2, l3]);
    let st = init_state();
    assert(run_lines(st, header_lines()) == run_lines(spec_step(st, l0), seq![l1, l2, l3]));
    assert(spec_step(st, l0) == st) by {
        lemma_step_heading(st, l0);
    }
    assert(run_lines(st, seq![l1, l2, l3]) == spec_step(spec_step(spec_step(st, l1), l2), l3)) by {
        lemma_run3(st, l1, l2, l3);
    }
    assert(spec_step(st, l1) == st) by {
        lemma_step_heading(st, l1);
    }
    assert(spec_step(st, l2) == st) by {
        lemma_step_heading(st, l2);
    }
    assert(spec_step(st, l3) == (DecState { in_dict: true, ..st })) by {
        assert(!is_space('<') && !is_space('>'));
        lemma_trim_concat(Seq::empty(), l3);
        assert(Seq::<char>::empty() + l3 =~= l3);
        assert(st.current_key != "EnvironmentVariables"@);
    }
    assert(lines_ok(header_lines())) by {
        assert(line_ok(l0) && line_ok(l1) && line_ok(l2) && line_ok(l3));
    }
}

/// A heading line matches nothing the decoder reads while no key is pending.
proof fn lemma_step_heading(st: DecState, l: Seq<char>)
    requires
        !st.collecting_env,
        st.current_key.len() == 0,
        spec_trim(l) == l,
        l.len() > 8,
        l[1] != 'k' && l[1] != 's' && l[1] != 'd' && l[1] != 'a' && l[1] != '/',
        l != "<dict>"@ && l != "</dict>"@ && l != "<array>"@ && l != "</array>"@,
    ensures
        spec_step(st, l) == st,
{
    lemma_lits();
    assert(!key_form(l)) by {
        if key_form(l) {
            assert(l.take(5)[1] == "<key>"@[1]);
        }
    }
    assert(!string_form(l)) by {
        if string_form(l) {
            assert(l.take(8)[1] == "<string>"@[1]);
        }
    }
}

/// The closing frame: the dictionary closes, the trailing line is inert.
proof fn lemma_run_footer(st: DecState)
    requires
        clean(st),
    ensures
        run_lines(st, footer_lines()) == (DecState { in_dict: false, ..st }),
        lines_ok(footer_lines()),
{
    lemma_lits();
    reveal_strlit("</plist>");
    let l0 = "</dict>"@;
    let l1 = "</plist>"@;
    assert(footer_lines() == seq![l0, l1]);
    lemma_run2(st, l0, l1);
    assert(spec_step(st, l0) == (DecState { in_dict: false, ..st })) by {
        assert(!is_space('<') && !is_space('>'));
        lemma_trim_concat(Seq::empty(), l0);
        assert(Seq::<char>::empty() + l0 =~= l0);
        assert(l0 != "<dict>"@);
    }
    let st1 = DecState { in_dict: false, ..st };
    assert(spec_step(st1, l1) == st1) by {
        lemma_trim_concat(Seq::empty(), l1);
        assert(Seq::<char>::empty() + l1 =~= l1);
        assert(l1[1] == '/' && l1[2] == 'p');
        assert(l1 != "<dict>"@ && l1 != "</dict>"@ && l1 != "<array>"@);
        assert(l1 != "</array>"@) by {
            assert("</array>"@[2] == 'a');
        }
        assert(!key_form(l1)) by {
            if key_form(l1) {
                assert(l1.take(5)[1] == "<key>"@[1]);
            }
        }
        assert(!string_form(l1)) by {
            if string_form(l1) {
                assert(l1.len() >= 17);
            }
        }
    }
    assert(lines_ok(footer_lines())) by {
        assert(line_ok(l0) && line_ok(l1));
    }
}

/// A probe state that lets the step lemmas speak of line shapes alone.
spec fn probe_value() -> DecState {
    DecState { in_dict: true, current_key: seq!['K'], ..init_state() }
}

spec fn probe_elem() -> DecState {
    DecState { collecting_array: true, ..probe_value() }
}

spec fn probe_env() -> DecState {
    DecState { collecting_env: true, ..init_state() }
}

#[verifier::rlimit(100)]
proof fn lemma_string_attr_ok(name: Seq<char>, v: Option<Seq<char>>)
    requires
        text_ok(name),
        opt_text_ok(v),
    ensures
        lines_ok(string_attr_lines(name, v)),
{
    match v {
        None => {},
        Some(s) => {
            lemma_step_key_line(probe_value(), name);
            lemma_step_string_value(probe_value(), s);
            lemma_step_blank(DecState { current_key: Seq::empty(), ..probe_value() });
            let ls = string_attr_lines(name, v);
            assert(line_ok(ls[0]) && line_ok(ls[1]) && line_ok(ls[2]));
        },
    }
}

#[verifier::rlimit(100)]
proof fn lemma_int_attr_ok(name: Seq<char>, v: Option<i32>)
    requires
        text_ok(name),
    ensures
        lines_ok(int_attr_lines(name, v)),
{
    match v {
        None => {},
        Some(n) => {
            lemma_step_key_line(probe_value(), name);
            lemma_step_integer_value(probe_value(), n);
            lemma_step_blank(DecState { current_key: Seq::empty(), ..probe_value() });
            let ls = int_attr_lines(name, v);
            assert(line_ok(ls[0]) && line_ok(ls[1]) && line_ok(ls[2]));
        },
    }
}

#[verifier::rlimit(100)]
proof fn lemma_bool_attr_ok(name: Seq<char>, v: Option<bool>)
    requires
        text_ok(name),
    ensures
        lines_ok(bool_attr_lines(name, v)),
{
    match v {
        None => {},
        Some(b) => {
            lemma_step_key_line(probe_value(), name);
            lemma_step_bool_value(probe_value(), b);
            lemma_step_blank(DecState { current_key: Seq::empty(), ..probe_value() });
            let ls = bool_attr_lines(name, v);
            assert(line_ok(ls[0]) && line_ok(ls[1]) && line_ok(ls[2]));
        },
    }
}

#[verifier::rlimit(100)]
proof fn lemma_elems_ok(vs: Seq<Seq<char>>)
    requires
        forall|k: int| 0 <= k < vs.len() ==> text_ok(#[trigger] vs[k]),
    ensures
        lines_ok(array_elem_lines(vs)),
{
    assert forall|k: int| 0 <= k < array_elem_lines(vs).len() implies line_ok(
        #[trigger] array_elem_lines(vs)[k],
    ) by {
        assert(array_elem_lines(vs)[k] == array_elem_line(vs[k]));
        lemma_step_array_elem(probe_elem(), vs[k]);
    }
}

#[verifier::rlimit(100)]
proof fn lemma_array_attr_ok(name: Seq<char>, v: Option<Seq<Seq<char>>>)
    requires
        text_ok(name),
        list_ok(v),
    ensures
        lines_ok(array_attr_lines(name, v)),
{
    match v {
        None => {},
        Some(vs) => {
            lemma_step_key_line(probe_value(), name);
            lemma_step_array_open(probe_value());
            lemma_step_array_close(probe_value());
            lemma_step_blank(DecState { current_key: Seq::empty(), ..probe_value() });
            lemma_elems_ok(vs);
            let open2 = seq![key_line(name), array_open_line()];
            let close2 = seq![array_close_line(), blank_line()];
            assert(lines_ok(open2)) by {
                assert(line_ok(open2[0]) && line_ok(open2[1]));
            }
            assert(lines_ok(close2)) by {
                assert(line_ok(close2[0]) && line_ok(close2[1]));
            }
            lemma_lines_ok_concat(open2, array_elem_lines(vs));
            lemma_lines_ok_concat(open2 + array_elem_lines(vs), close2);
            assert(array_attr_lines(name, v) == open2 + array_elem_lines(vs) + close2);
            assert((open2 + array_elem_lines(vs)) + close2 =~= open2 + array_elem_lines(vs)
                + close2);
        },
    }
}

#[verifier::rlimit(100)]
proof fn lemma_session_attr_ok(v: Option<SessionTypeView>)
    requires
        session_ok(v),
    ensures
        lines_ok(session_attr_lines(v)),
{
    lemma_key_lits();
    match v {
        None => {},
        Some(SessionTypeView::Single(s)) => {
            lemma_step_key_line(probe_value(), "LimitLoadToSessionType"@);
            lemma_step_string_value(probe_value(), s);
            lemma_step_blank(DecState { current_key: Seq::empty(), ..probe_value() });
            let ls = session_attr_lines(v);
            assert(line_ok(ls[0]) && line_ok(ls[1]) && line_ok(ls[2]));
        },
        Some(SessionTypeView::Multiple(vs)) => {
            lemma_step_key_line(probe_value(), "LimitLoadToSessionType"@);
            lemma_step_array_open(probe_value());
            lemma_step_array_close(probe_value());
            lemma_step_blank(DecState { current_key: Seq::empty(), ..probe_value() });
            lemma_elems_ok(vs);
            let open2 = seq![key_line("LimitLoadToSessionType"@), array_open_line()];
            let close2 = seq![array_close_line(), blank_line()];
            assert(lines_ok(open2)) by {
                assert(line_ok(open2[0]) && line_ok(open2[1]));
            }
            assert(lines_ok(close2)) by {
                assert(line_ok(close2[0]) && line_ok(close2[1]));
            }
            lemma_lines_ok_concat(open2, array_elem_lines(vs));
            lemma_lines_ok_concat(open2 + array_elem_lines(vs), close2);
            assert(session_attr_lines(v) == open2 + array_elem_lines(vs) + close2);
            assert((open2 + array_elem_lines(vs)) + close2 =~= open2 + array_elem_lines(vs)
                + close2);
        },
    }
}

#[verifier::rlimit(100)]
proof fn lemma_env_pair_lines_ok(ps: Seq<(Seq<char>, Seq<char>)>)
    requires
        forall|k: int| 0 <= k < ps.len() ==> text_ok(#[trigger] ps[k].0) && text_ok(ps[k].1),
    ensures
        lines_ok(env_pair_lines(ps)),
    decreases ps.len(),
{
    if ps.len() == 0 {
    } else {
        lemma_step_env_key(probe_env(), ps[0].0);
        lemma_step_env_value(probe_env(), ps[0].1);
        assert(forall|k: int|
            0 <= k < ps.drop_first().len() ==> text_ok(#[trigger] ps.drop_first()[k].0) && text_ok(
                ps.drop_first()[k].1,
            ));
        lemma_env_pair_lines_ok(ps.drop_first());
        let two = seq![env_key_line(ps[0].0), env_value_line(ps[0].1)];
        assert(lines_ok(two)) by {
            assert(line_ok(two[0]) && line_ok(two[1]));
        }
        lemma_lines_ok_concat(two, env_pair_lines(ps.drop_first()));
    }
}

#[verifier::rlimit(100)]
proof fn lemma_env_attr_ok(v: Option<Seq<(Seq<char>, Seq<char>)>>)
    requires
        env_ok(v),
    ensures
        lines_ok(env_attr_lines(v)),
{
    lemma_key_lits();
    match v {
        None => {},
        Some(ps) => {
            lemma_step_key_line(probe_value(), "EnvironmentVariables"@);
            lemma_step_dict_open(
                DecState { current_key: "EnvironmentVariables"@, ..probe_value() },
            );
            lemma_step_dict_close(probe_env());
            lemma_step_blank(DecState { current_key: Seq::empty(), ..probe_value() });
            lemma_env_pair_lines_ok(ps);
            let open2 = seq![key_line("EnvironmentVariables"@), dict_open_line()];
            let close2 = seq![dict_close_line(), blank_line()];
            assert(lines_ok(open2)) by {
                assert(line_ok(open2[0]) && line_ok(open2[1]));
            }
            assert(lines_ok(close2)) by {
                assert(line_ok(close2[0]) && line_ok(close2[1]));
            }
            lemma_lines_ok_concat(open2, env_pair_lines(ps));
            lemma_lines_ok_concat(open2 + env_pair_lines(ps), close2);
            assert(env_attr_lines(v) == open2 + env_pair_lines(ps) + close2);
            assert((open2 + env_pair_lines(ps)) + close2 =~= open2 + env_pair_lines(ps) + close2);
        },
    }
}

/// Every line the encoder emits for a supported document is fit for joining.
proof fn lemma_encode_lines_ok(d: PlistView)
    requires
        supported(d),
    ensures
        lines_ok(spec_encode_lines(d)),
{
    lemma_key_lits();
    lemma_run_header();
    lemma_run_footer(DecState { in_dict: true, ..init_state() });
    lemma_string_attr_ok("Label"@, d.label);
    lemma_array_attr_ok("ProgramArguments"@, d.program_arguments);
    lemma_int_attr_ok("StartInterval"@, d.start_interval);
    lemma_bool_attr_ok("RunAtLoad"@, d.run_at_load);
    lemma_bool_attr_ok("KeepAlive"@, d.keep_alive);
    lemma_string_attr_ok("StandardOutPath"@, d.standard_out_path);
    lemma_string_attr_ok("StandardErrorPath"@, d.standard_error_path);
    lemma_string_attr_ok("WorkingDirectory"@, d.working_directory);
    lemma_string_attr_ok("Program"@, d.program);
    lemma_int_attr_ok("ThrottleInterval"@, d.throttle_interval);
    lemma_bool_attr_ok("AbandonProcessGroup"@, d.abandon_process_group);
    lemma_bool_attr_ok("EnablePressuredExit"@, d.enable_pressured_exit);
    lemma_bool_attr_ok("EnableTransactions"@, d.enable_transactions);
    lemma_bool_attr_ok("EventMonitor"@, d.event_monitor);
    lemma_string_attr_ok("POSIXSpawnType"@, d.posix_spawn_type);
    lemma_array_attr_ok("AssociatedBundleIdentifiers"@, d.associated_bundle_identifiers);
    lemma_session_attr_ok(d.limit_load_to_session_type);
    lemma_env_attr_ok(d.environment_variables);
    let a1 = header_lines();
    let a2 = a1 + string_attr_lines("Label"@, d.label);
    lemma_lines_ok_concat(a1, string_attr_lines("Label"@, d.label));
    let a3 = a2 + array_attr_lines("ProgramArguments"@, d.program_arguments);
    lemma_lines_ok_concat(a2, array_attr_lines("ProgramArguments"@, d.program_arguments));
    let a4 = a3 + int_attr_lines("StartInterval"@, d.start_interval);
    lemma_lines_ok_concat(a3, int_attr_lines("StartInterval"@, d.start_interval));
    let a5 = a4 + bool_attr_lines("RunAtLoad"@, d.run_at_load);
    lemma_lines_ok_concat(a4, bool_attr_lines("RunAtLoad"@, d.run_at_load));
    let a6 = a5 + bool_attr_lines("KeepAlive"@, d.keep_alive);
    lemma_lines_ok_concat(a5, bool_attr_lines("KeepAlive"@, d.keep_alive));
    let a7 = a6 + string_attr_lines("StandardOutPath"@, d.standard_out_path);
    lemma_lines_ok_concat(a6, string_attr_lines("StandardOutPath"@, d.standard_out_path));
    let a8 = a7 + string_attr_lines("StandardErrorPath"@, d.standard_error_path);
    lemma_lines_ok_concat(a7, string_attr_lines("StandardErrorPath"@, d.standard_error_path));
    let a9 = a8 + string_attr_lines("WorkingDirectory"@, d.working_directory);
    lemma_lines_ok_concat(a8, string_attr_lines("WorkingDirectory"@, d.working_directory));
    let a10 = a9 + string_attr_lines("Program"@, d.program);
    lemma_lines_ok_concat(a9, string_attr_lines("Program"@, d.program));
    let a11 = a10 + int_attr_lines("ThrottleInterval"@, d.throttle_interval);
    lemma_lines_ok_concat(a10, int_attr_lines("ThrottleInterval"@, d.throttle_interval));
    let a12 = a11 + bool_attr_lines("AbandonProcessGroup"@, d.abandon_process_group);
    lemma_lines_ok_concat(a11, bool_attr_lines("AbandonProcessGroup"@, d.abandon_process_group));
    let a13 = a12 + bool_attr_lines("EnablePressuredExit"@, d.enable_pressured_exit);
    lemma_lines_ok_concat(a12, bool_attr_lines("EnablePressuredExit"@, d.enable_pressured_exit));
    let a14 = a13 + bool_attr_lines("EnableTransactions"@, d.enable_transactions);
    lemma_lines_ok_concat(a13, bool_attr_lines("EnableTransactions"@, d.enable_transactions));
    let a15 = a14 + bool_attr_lines("EventMonitor"@, d.event_monitor);
    lemma_lines_ok_concat(a14, bool_attr_lines("EventMonitor"@, d.event_monitor));
    let a16 = a15 + string_attr_lines("POSIXSpawnType"@, d.posix_spawn_type);
    lemma_lines_ok_concat(a15, string_attr_lines("POSIXSpawnType"@, d.posix_spawn_type));
    let a17 = a16 + array_attr_lines(
        "AssociatedBundleIdentifiers"@,
        d.associated_bundle_identifiers,
    );
    lemma_lines_ok_concat(
        a16,
        array_attr_lines("AssociatedBundleIdentifiers"@, d.associated_bundle_identifiers),
    );
    let a18 = a17 + session_attr_lines(d.limit_load_to_session_type);
    lemma_lines_ok_concat(a17, session_attr_lines(d.limit_load_to_session_type));
    let a19 = a18 + env_attr_lines(d.environment_variables);
    lemma_lines_ok_concat(a18, env_attr_lines(d.environment_variables));
    lemma_lines_ok_concat(a19, footer_lines());
}

proof fn lemma_apply_label(st: DecState, s: Seq<char>)
    requires
        clean(st),
    ensures
        run_lines(st, string_attr_lines("Label"@, Some(s))) == (DecState {
            doc: PlistView { label: Some(s), ..st.doc },
            ..st
        }),
{
    lemma_key_lits();
    lemma_block_string(st, "Label"@, s);
}

proof fn lemma_apply_program(st: DecState, s: Seq<char>)
    requires
        clean(st),
    ensures
        run_lines(st, string_attr_lines("Program"@, Some(s))) == (DecState {
            doc: PlistView { program: Some(s), ..st.doc },
            ..st
        }),
{
    lemma_key_lits();
    lemma_block_string(st, "Program"@, s);
}

proof fn lemma_apply_stdout(st: DecState, s: Seq<char>)
    requires
        clean(st),
    ensures
        run_lines(st, string_attr_lines("StandardOutPath"@, Some(s))) == (DecState {
            doc: PlistView { standard_out_path: Some(s), ..st.doc },
            ..st
        }),
{
    lemma_key_lits();
    lemma_block_string(st, "StandardOutPath"@, s);
}

proof fn lemma_apply_stderr(st: DecState, s: Seq<char>)
    requires
        clean(st),
    ensures
        run_lines(st, string_attr_lines("StandardErrorPath"@, Some(s))) == (DecState {
            doc: PlistView { standard_error_path: Some(s), ..st.doc },
            ..st
        }),
{
    lemma_key_lits();
    lemma_block_string(st, "StandardErrorPath"@, s);
}

proof fn lemma_apply_workdir(st: DecState, s: Seq<char>)
    requires
        clean(st),
    ensures
        run_lines(st, string_attr_lines("WorkingDirectory"@, Some(s))) == (DecState {
            doc: PlistView { working_directory: Some(s), ..st.doc },
            ..st
        }),
{
    lemma_key_lits();
    lemma_block_string(st, "WorkingDirectory"@, s);
}

proof fn lemma_apply_spawn(st: DecState, s: Seq<char>)
    requires
        clean(st),
    ensures
        run_lines(st, string_attr_lines("POSIXSpawnType"@, Some(s))) == (DecState {
            doc: PlistView { posix_spawn_type: Some(s), ..st.doc },
            ..st
        }),
{
    lemma_key_lits();
    lemma_block_string(st, "POSIXSpawnType"@, s);
}

proof fn lemma_apply_session_single(st: DecState, s: Seq<char>)
    requires
        clean(st),
    ensures
        run_lines(st, session_attr_lines(Some(SessionTypeView::Single(s)))) == (DecState {
            doc: PlistView {
                limit_load_to_session_type: Some(SessionTypeView::Single(s)),
                ..st.doc
            },
            ..st
        }),
{
    lemma_key_lits();
    let name = "LimitLoadToSessionType"@;
    assert(session_attr_lines(Some(SessionTypeView::Single(s))) == string_attr_lines(
        name,
        Some(s),
    ));
    lemma_block_string(st, name, s);
}

proof fn lemma_apply_start_interval(st: DecState, n: i32)
    requires
        clean(st),
    ensures
        run_lines(st, int_attr_lines("StartInterval"@, Some(n))) == (DecState {
            doc: PlistView { start_interval: Some(n), ..st.doc },
            ..st
        }),
{
    lemma_key_lits();
    lemma_block_int(st, "StartInterval"@, n);
    lemma_parse_of_render(n);
}

proof fn lemma_apply_throttle_interval(st: DecState, n: i32)
    requires
        clean(st),
    ensures
        run_lines(st, int_attr_lines("ThrottleInterval"@, Some(n))) == (DecState {
            doc: PlistView { throttle_interval: Some(n), ..st.doc },
            ..st
        }),
{
    lemma_key_lits();
    lemma_block_int(st, "ThrottleInterval"@, n);
    lemma_parse_of_render(n);
}

proof fn lemma_apply_run_at_load(st: DecState, b: bool)
    requires
        clean(st),
    ensures
        run_lines(st, bool_attr_lines("RunAtLoad"@, Some(b))) == (DecState {
            doc: PlistView { run_at_load: Some(b), ..st.doc },
            ..st
        }),
{
    lemma_key_lits();
    lemma_block_bool(st, "RunAtLoad"@, b);
}

proof fn lemma_apply_keep_alive(st: DecState, b: bool)
    requires
        clean(st),
    ensures
        run_lines(st, bool_attr_lines("KeepAlive"@, Some(b))) == (DecState {
            doc: PlistView { keep_alive: Some(b), ..st.doc },
            ..st
        }),
{
    lemma_key_lits();
    lemma_block_bool(st, "KeepAlive"@, b);
}

proof fn lemma_apply_abandon(st: DecState, b: bool)
    requires
        clean(st),
    ensures
        run_lines(st, bool_attr_lines("AbandonProcessGroup"@, Some(b))) == (DecState {
            doc: PlistView { abandon_process_group: Some(b), ..st.doc },
            ..st
        }),
{
    lemma_key_lits();
    lemma_block_bool(st, "AbandonProcessGroup"@, b);
}

proof fn lemma_apply_pressured(st: DecState, b: bool)
    requires
        clean(st),
    ensures
        run_lines(st, bool_attr_lines("EnablePressuredExit"@, Some(b))) == (DecState {
            doc: PlistView { enable_pressured_exit: Some(b), ..st.doc },
            ..st
        }),
{
    lemma_key_lits();
    lemma_block_bool(st, "EnablePressuredExit"@, b);
}

proof fn lemma_apply_transactions(st: DecState, b: bool)
    requires
        clean(st),
    ensures
        run_lines(st, bool_attr_lines("EnableTransactions"@, Some(b))) == (DecState {
            doc: PlistView { enable_transactions: Some(b), ..st.doc },
            ..st
        }),
{
    lemma_key_lits();
    lemma_block_bool(st, "EnableTransactions"@, b);
}

proof fn lemma_apply_monitor(st: DecState, b: bool)
    requires
        clean(st),
    ensures
        run_lines(st, bool_attr_lines("EventMonitor"@, Some(b))) == (DecState {
            doc: PlistView { event_monitor: Some(b), ..st.doc },
            ..st
        }),
{
    lemma_key_lits();
    lemma_block_bool(st, "EventMonitor"@, b);
}

proof fn lemma_run_empty(st: DecState)
    ensures
        run_lines(st, Seq::<Seq<char>>::empty()) == st,
{
}

/// The lines of the first five attributes.
spec fn lines_a(d: PlistView) -> Seq<Seq<char>> {
    string_attr_lines("Label"@, d.label) + array_attr_lines("ProgramArguments"@, d.program_arguments)
        + int_attr_lines("StartInterval"@, d.start_interval) + bool_attr_lines(
        "RunAtLoad"@,
        d.run_at_load,
    ) + bool_attr_lines("KeepAlive"@, d.keep_alive)
}

/// The lines of the five path and interval attributes that follow.
spec fn lines_b(d: PlistView) -> Seq<Seq<char>> {
    string_attr_lines("StandardOutPath"@, d.standard_out_path) + string_attr_lines(
        "StandardErrorPath"@,
        d.standard_error_path,
    ) + string_attr_lines("WorkingDirectory"@, d.working_directory) + string_attr_lines(
        "Program"@,
        d.program,
    ) + int_attr_lines("ThrottleInterval"@, d.throttle_interval)
}

/// The lines of the four remaining booleans and the spawn type.
spec fn lines_c(d: PlistView) -> Seq<Seq<char>> {
    bool_attr_lines("AbandonProcessGroup"@, d.abandon_process_group) + bool_attr_lines(
        "EnablePressuredExit"@,
        d.enable_pressured_exit,
    ) + bool_attr_lines("EnableTransactions"@, d.enable_transactions) + bool_attr_lines(
        "EventMonitor"@,
        d.event_monitor,
    ) + string_attr_lines("POSIXSpawnType"@, d.posix_spawn_type)
}

/// The lines of the three aggregate attributes at the end.
spec fn lines_d(d: PlistView) -> Seq<Seq<char>> {
    array_attr_lines("AssociatedBundleIdentifiers"@, d.associated_bundle_identifiers)
        + session_attr_lines(d.limit_load_to_session_type) + env_attr_lines(
        d.environment_variables,
    )
}

#[verifier::rlimit(100)]
proof fn lemma_chain_a(st: DecState, d: PlistView)
    requires
        clean(st),
        st.doc.label is None,
        st.doc.program_arguments is None,
        st.doc.start_interval is None,
        st.doc.run_at_load is None,
        st.doc.keep_alive is None,
    ensures
        clean(run_lines(st, lines_a(d))),
        run_lines(st, lines_a(d)).env == st.env,
        run_lines(st, lines_a(d)).env_key == st.env_key,
        run_lines(st, lines_a(d)).doc == (PlistView {
            label: d.label,
            program_arguments: d.program_arguments,
            start_interval: d.start_interval,
            run_at_load: d.run_at_load,
            keep_alive: d.keep_alive,
            ..st.doc
        }),
{
    let l1 = string_attr_lines("Label"@, d.label);
    let l2 = array_attr_lines("ProgramArguments"@, d.program_arguments);
    let l3 = int_attr_lines("StartInterval"@, d.start_interval);
    let l4 = bool_attr_lines("RunAtLoad"@, d.run_at_load);
    let l5 = bool_attr_lines("KeepAlive"@, d.keep_alive);
    let st1 = run_lines(st, l1);
    match d.label {
        Some(s) => { lemma_apply_label(st, s); },
        None => { lemma_run_empty(st); },
    }
    assert(clean(st1) && st1.env == st.env && st1.env_key == st.env_key);
    assert(st1.doc =~= (PlistView { label: d.label, ..st.doc }));
    let st2 = run_lines(st1, l2);
    match d.program_arguments {
        Some(vs) => { lemma_block_args(st1, vs); },
        None => { lemma_run_empty(st1); },
    }
    assert(clean(st2) && st2.env == st1.env && st2.env_key == st1.env_key);
    assert(st2.doc =~= (PlistView { program_arguments: d.program_arguments, ..st1.doc }));
    let st3 = run_lines(st2, l3);
    match d.start_interval {
        Some(n) => { lemma_apply_start_interval(st2, n); },
        None => { lemma_run_empty(st2); },
    }
    assert(clean(st3) && st3.env == st2.env && st3.env_key == st2.env_key);
    assert(st3.doc =~= (PlistView { start_interval: d.start_interval, ..st2.doc }));
    let st4 = run_lines(st3, l4);
    match d.run_at_load {
        Some(b) => { lemma_apply_run_at_load(st3, b); },
        None => { lemma_run_empty(st3); },
    }
    assert(clean(st4) && st4.env == st3.env && st4.env_key == st3.env_key);
    assert(st4.doc =~= (PlistView { run_at_load: d.run_at_load, ..st3.doc }));
    let st5 = run_lines(st4, l5);
    match d.keep_alive {
        Some(b) => { lemma_apply_keep_alive(st4, b); },
        None => { lemma_run_empty(st4); },
    }
    assert(clean(st5) && st5.env == st4.env && st5.env_key == st4.env_key);
    assert(st5.doc =~= (PlistView { keep_alive: d.keep_alive, ..st4.doc }));
    lemma_run_append(st, l1, l2);
    lemma_run_append(st, l1 + l2, l3);
    lemma_run_append(st, l1 + l2 + l3, l4);
    lemma_run_append(st, l1 + l2 + l3 + l4, l5);
    assert(run_lines(st, lines_a(d)) == st5);
    assert(st5.doc =~= (PlistView {
        label: d.label,
        program_arguments: d.program_arguments,
        start_interval: d.start_interval,
        run_at_load: d.run_at_load,
        keep_alive: d.keep_alive,
        ..st.doc
    }));
}

#[verifier::rlimit(100)]
proof fn lemma_chain_b(st: DecState, d: PlistView)
    requires
        clean(st),
        st.doc.standard_out_path is None,
        st.doc.standard_error_path is None,
        st.doc.working_directory is None,
        st.doc.program is None,
        st.doc.throttle_interval is None,
    ensures
        clean(run_lines(st, lines_b(d))),
        run_lines(st, lines_b(d)).env == st.env,
        run_lines(st, lines_b(d)).env_key == st.env_key,
        run_lines(st, lines_b(d)).doc == (PlistView {
            standard_out_path: d.standard_out_path,
            standard_error_path: d.standard_error_path,
            working_directory: d.working_directory,
            program: d.program,
            throttle_interval: d.throttle_interval,
            ..st.doc
        }),
{
    let l1 = string_attr_lines("StandardOutPath"@, d.standard_out_path);
    let l2 = string_attr_lines("StandardErrorPath"@, d.standard_error_path);
    let l3 = string_attr_lines("WorkingDirectory"@, d.working_directory);
    let l4 = string_attr_lines("Program"@, d.program);
    let l5 = int_attr_lines("ThrottleInterval"@, d.throttle_interval);
    let st1 = run_lines(st, l1);
    match d.standard_out_path {
        Some(s) => { lemma_apply_stdout(st, s); },
        None => { lemma_run_empty(st); },
    }
    assert(clean(st1) && st1.env == st.env && st1.env_key == st.env_key);
    assert(st1.doc =~= (PlistView { standard_out_path: d.standard_out_path, ..st.doc }));
    let st2 = run_lines(st1, l2);
    match d.standard_error_path {
        Some(s) => { lemma_apply_stderr(st1, s); },
        None => { lemma_run_empty(st1); },
    }
    assert(clean(st2) && st2.env == st1.env && st2.env_key == st1.env_key);
    assert(st2.doc =~= (PlistView { standard_error_path: d.standard_error_path, ..st1.doc }));
    let st3 = run_lines(st2, l3);
    match d.working_directory {
        Some(s) => { lemma_apply_workdir(st2, s); },
        None => { lemma_run_empty(st2); },
    }
    assert(clean(st3) && st3.env == st2.env && st3.env_key == st2.env_key);
    assert(st3.doc =~= (PlistView { working_directory: d.working_directory, ..st2.doc }));
    let st4 = run_lines(st3, l4);
    match d.program {
        Some(s) => { lemma_apply_program(st3, s); },
        None => { lemma_run_empty(st3); },
    }
    assert(clean(st4) && st4.env == st3.env && st4.env_key == st3.env_key);
    assert(st4.doc =~= (PlistView { program: d.program, ..st3.doc }));
    let st5 = run_lines(st4, l5);
    match d.throttle_interval {
        Some(n) => { lemma_apply_throttle_interval(st4, n); },
        None => { lemma_run_empty(st4); },
    }
    assert(clean(st5) && st5.env == st4.env && st5.env_key == st4.env_key);
    assert(st5.doc =~= (PlistView { throttle_interval: d.throttle_interval, ..st4.doc }));
    lemma_run_append(st, l1, l2);
    lemma_run_append(st, l1 + l2, l3);
    lemma_run_append(st, l1 + l2 + l3, l4);
    lemma_run_append(st, l1 + l2 + l3 + l4, l5);
    assert(run_lines(st, lines_b(d)) == st5);
    assert(st5.doc =~= (PlistView {
        standard_out_path: d.standard_out_path,
        standard_error_path: d.standard_error_path,
        working_directory: d.working_directory,
        program: d.program,
        throttle_interval: d.throttle_interval,
        ..st.doc
    }));
}

#[verifier::rlimit(100)]
proof fn lemma_chain_c(st: DecState, d: PlistView)
    requires
        clean(st),
        st.doc.abandon_process_group is None,
        st.doc.enable_pressured_exit is None,
        st.doc.enable_transactions is None,
        st.doc.event_monitor is None,
        st.doc.posix_spawn_type is None,
    ensures
        clean(run_lines(st, lines_c(d))),
        run_lines(st, lines_c(d)).env == st.env,
        run_lines(st, lines_c(d)).env_key == st.env_key,
        run_lines(st, lines_c(d)).doc == (PlistView {
            abandon_process_group: d.abandon_process_group,
            enable_pressured_exit: d.enable_pressured_exit,
            enable_transactions: d.enable_transactions,
            event_monitor: d.event_monitor,
            posix_spawn_type: d.posix_spawn_type,
            ..st.doc
        }),
{
    let l1 = bool_attr_lines("AbandonProcessGroup"@, d.abandon_process_group);
    let l2 = bool_attr_lines("EnablePressuredExit"@, d.enable_pressured_exit);
    let l3 = bool_attr_lines("EnableTransactions"@, d.enable_transactions);
    let l4 = bool_attr_lines("EventMonitor"@, d.event_monitor);
    let l5 = string_attr_lines("POSIXSpawnType"@, d.posix_spawn_type);
    let st1 = run_lines(st, l1);
    match d.abandon_process_group {
        Some(b) => { lemma_apply_abandon(st, b); },
        None => { lemma_run_empty(st); },
    }
    assert(clean(st1) && st1.env == st.env && st1.env_key == st.env_key);
    assert(st1.doc =~= (PlistView { abandon_process_group: d.abandon_process_group, ..st.doc }));
    let st2 = run_lines(st1, l2);
    match d.enable_pressured_exit {
        Some(b) => { lemma_apply_pressured(st1, b); },
        None => { lemma_run_empty(st1); },
    }
    assert(clean(st2) && st2.env == st1.env && st2.env_key == st1.env_key);
    assert(st2.doc =~= (PlistView { enable_pressured_exit: d.enable_pressured_exit, ..st1.doc }));
    let st3 = run_lines(st2, l3);
    match d.enable_transactions {
        Some(b) => { lemma_apply_transactions(st2, b); },
        None => { lemma_run_empty(st2); },
    }
    assert(clean(st3) && st3.env == st2.env && st3.env_key == st2.env_key);
    assert(st3.doc =~= (PlistView { enable_transactions: d.enable_transactions, ..st2.doc }));
    let st4 = run_lines(st3, l4);
    match d.event_monitor {
        Some(b) => { lemma_apply_monitor(st3, b); },
        None => { lemma_run_empty(st3); },
    }
    assert(clean(st4) && st4.env == st3.env && st4.env_key == st3.env_key);
    assert(st4.doc =~= (PlistView { event_monitor: d.event_monitor, ..st3.doc }));
    let st5 = run_lines(st4, l5);
    match d.posix_spawn_type {
        Some(s) => { lemma_apply_spawn(st4, s); },
        None => { lemma_run_empty(st4); },
    }
    assert(clean(st5) && st5.env == st4.env && st5.env_key == st4.env_key);
    assert(st5.doc =~= (PlistView { posix_spawn_type: d.posix_spawn_type, ..st4.doc }));
    lemma_run_append(st, l1, l2);
    lemma_run_append(st, l1 + l2, l3);
    lemma_run_append(st, l1 + l2 + l3, l4);
    lemma_run_append(st, l1 + l2 + l3 + l4, l5);
    assert(run_lines(st, lines_c(d)) == st5);
    assert(st5.doc =~= (PlistView {
        abandon_process_group: d.abandon_process_group,
        enable_pressured_exit: d.enable_pressured_exit,
        enable_transactions: d.enable_transactions,
        event_monitor: d.event_monitor,
        posix_spawn_type: d.posix_spawn_type,
        ..st.doc
    }));
}

#[verifier::rlimit(100)]
proof fn lemma_chain_d(st: DecState, d: PlistView)
    requires
        clean(st),
        st.env.len() == 0,
        st.env_key.len() == 0,
        st.doc.associated_bundle_identifiers is None,
        st.doc.limit_load_to_session_type is None,
        st.doc.environment_variables is None,
        env_ok(d.environment_variables),
    ensures
        run_lines(st, lines_d(d)).doc == (PlistView {
            associated_bundle_identifiers: d.associated_bundle_identifiers,
            limit_load_to_session_type: d.limit_load_to_session_type,
            environment_variables: d.environment_variables,
            ..st.doc
        }),
        clean(run_lines(st, lines_d(d))),
{
    let l1 = array_attr_lines("AssociatedBundleIdentifiers"@, d.associated_bundle_identifiers);
    let l2 = session_attr_lines(d.limit_load_to_session_type);
    let l3 = env_attr_lines(d.environment_variables);
    let st1 = run_lines(st, l1);
    match d.associated_bundle_identifiers {
        Some(vs) => { lemma_block_bundles(st, vs); },
        None => { lemma_run_empty(st); },
    }
    assert(clean(st1) && st1.env == st.env && st1.env_key == st.env_key);
    assert(st1.doc =~= (PlistView {
        associated_bundle_identifiers: d.associated_bundle_identifiers,
        ..st.doc
    }));
    let st2 = run_lines(st1, l2);
    match d.limit_load_to_session_type {
        Some(SessionTypeView::Single(s)) => { lemma_apply_session_single(st1, s); },
        Some(SessionTypeView::Multiple(vs)) => { lemma_block_sessions(st1, vs); },
        None => { lemma_run_empty(st1); },
    }
    assert(clean(st2) && st2.env == st1.env && st2.env_key == st1.env_key);
    assert(st2.doc =~= (PlistView {
        limit_load_to_session_type: d.limit_load_to_session_type,
        ..st1.doc
    }));
    let st3 = run_lines(st2, l3);
    assert(st2.env =~= Seq::<(Seq<char>, Seq<char>)>::empty());
    assert(st2.env_key =~= Seq::<char>::empty());
    match d.environment_variables {
        Some(ps) => { lemma_block_env(st2, ps); },
        None => { lemma_run_empty(st2); },
    }
    assert(clean(st3));
    assert(st3.doc =~= (PlistView {
        environment_variables: d.environment_variables,
        ..st2.doc
    }));
    lemma_run_append(st, l1, l2);
    lemma_run_append(st, l1 + l2, l3);
    assert(run_lines(st, lines_d(d)) == st3);
    assert(st3.doc =~= (PlistView {
        associated_bundle_identifiers: d.associated_bundle_identifiers,
        limit_load_to_session_type: d.limit_load_to_session_type,
        environment_variables: d.environment_variables,
        ..st.doc
    }));
}

/// The encoder's lines, grouped into the four chained segments.
#[verifier::rlimit(100)]
proof fn lemma_encode_lines_grouped(d: PlistView)
    ensures
        spec_encode_lines(d) == header_lines() + lines_a(d) + lines_b(d) + lines_c(d) + lines_d(d)
            + footer_lines(),
{
    let q1 = header_lines() + string_attr_lines("Label"@, d.label) + array_attr_lines(
        "ProgramArguments"@,
        d.program_arguments,
    ) + int_attr_lines("StartInterval"@, d.start_interval) + bool_attr_lines(
        "RunAtLoad"@,
        d.run_at_load,
    ) + bool_attr_lines("KeepAlive"@, d.keep_alive);
    assert(q1 =~= header_lines() + lines_a(d));
    let q2 = q1 + string_attr_lines("StandardOutPath"@, d.standard_out_path) + string_attr_lines(
        "StandardErrorPath"@,
        d.standard_error_path,
    ) + string_attr_lines("WorkingDirectory"@, d.working_directory) + string_attr_lines(
        "Program"@,
        d.program,
    ) + int_attr_lines("ThrottleInterval"@, d.throttle_interval);
    assert(q2 =~= q1 + lines_b(d));
    let q3 = q2 + bool_attr_lines("AbandonProcessGroup"@, d.abandon_process_group)
        + bool_attr_lines("EnablePressuredExit"@, d.enable_pressured_exit) + bool_attr_lines(
        "EnableTransactions"@,
        d.enable_transactions,
    ) + bool_attr_lines("EventMonitor"@, d.event_monitor) + string_attr_lines(
        "POSIXSpawnType"@,
        d.posix_spawn_type,
    );
    assert(q3 =~= q2 + lines_c(d));
    let q4 = q3 + array_attr_lines(
        "AssociatedBundleIdentifiers"@,
        d.associated_bundle_identifiers,
    ) + session_attr_lines(d.limit_load_to_session_type) + env_attr_lines(
        d.environment_variables,
    );
    assert(q4 =~= q3 + lines_d(d));
    assert(spec_encode_lines(d) =~= q4 + footer_lines());
    assert(q4 + footer_lines() =~= header_lines() + lines_a(d) + lines_b(d) + lines_c(d)
        + lines_d(d) + footer_lines());
}

/// Decoding an encoded document yields the document back: every supported
/// attribute keeps its value, lists their order, and the mapping both its
/// membership and its order.
#[verifier::rlimit(100)]
pub proof fn lemma_round_trip(d: PlistView)
    requires
        supported(d),
    ensures
        spec_decode(spec_encode(d)) == d,
{
    lemma_encode_lines_ok(d);
    lemma_lines_of_join(spec_encode_lines(d));
    assert(spec_lines(spec_encode(d)) == spec_encode_lines(d));
    let init = init_state();
    lemma_run_header();
    let st0 = DecState { in_dict: true, ..init };
    let whole = header_lines() + lines_a(d) + lines_b(d) + lines_c(d) + lines_d(d)
        + footer_lines();
    lemma_encode_lines_grouped(d);
    lemma_run_append(init, header_lines(), lines_a(d));
    lemma_chain_a(st0, d);
    let st1 = run_lines(st0, lines_a(d));
    lemma_run_append(init, header_lines() + lines_a(d), lines_b(d));
    lemma_chain_b(st1, d);
    let st2 = run_lines(st1, lines_b(d));
    lemma_run_append(init, header_lines() + lines_a(d) + lines_b(d), lines_c(d));
    lemma_chain_c(st2, d);
    let st3 = run_lines(st2, lines_c(d));
    lemma_run_append(init, header_lines() + lines_a(d) + lines_b(d) + lines_c(d), lines_d(d));
    assert(st3.env =~= Seq::<(Seq<char>, Seq<char>)>::empty());
    assert(st3.env_key =~= Seq::<char>::empty());
    lemma_chain_d(st3, d);
    let st4 = run_lines(st3, lines_d(d));
    lemma_run_append(
        init,
        header_lines() + lines_a(d) + lines_b(d) + lines_c(d) + lines_d(d),
        footer_lines(),
    );
    lemma_run_footer(st4);
    assert(run_lines(init, whole).doc == st4.doc);
    assert(st4.doc =~= d);
}

/// Environment pairs as decoding accumulates them: line-sized texts under
/// pairwise distinct keys.
spec fn env_pairs_ok(ps: Seq<(Seq<char>, Seq<char>)>) -> bool {
    &&& forall|k: int| 0 <= k < ps.len() ==> text_ok(#[trigger] ps[k].0) && text_ok(ps[k].1)
    &&& forall|j: int, k: int| 0 <= j < k < ps.len() ==> ps[j].0 != ps[k].0
}

spec fn texts_ok(ls: Seq<Seq<char>>) -> bool {
    forall|k: int| 0 <= k < ls.len() ==> text_ok(#[trigger] ls[k])
}

/// Everything the decoder has accumulated is line-sized.
spec fn st_ok(st: DecState) -> bool {
    &&& supported(st.doc)
    &&& texts_ok(st.program_args)
    &&& texts_ok(st.bundle_ids)
    &&& texts_ok(st.session_types)
    &&& env_pairs_ok(st.env)
    &&& text_ok(st.env_key)
}

proof fn lemma_env_upsert_ok(ps: Seq<(Seq<char>, Seq<char>)>, k: Seq<char>, v: Seq<char>)
    requires
        env_pairs_ok(ps),
        text_ok(k),
        text_ok(v),
    ensures
        env_pairs_ok(env_upsert(ps, k, v)),
    decreases ps.len(),
{
    if ps.len() == 0 {
    } else if ps[0].0 == k {
        let r = seq![(k, v)] + ps.drop_first();
        assert(forall|j: int| 0 <= j < ps.drop_first().len() ==> ps.drop_first()[j] == ps[j + 1]);
        assert(env_pairs_ok(r)) by {
            assert(forall|j: int| 1 <= j < r.len() ==> r[j] == ps[j]);
            assert(r[0] == (k, v));
        }
    } else {
        assert(env_pairs_ok(ps.drop_first())) by {
            assert(forall|j: int| 0 <= j < ps.drop_first().len() ==> ps.drop_first()[j] == ps[j
                + 1]);
        }
        lemma_env_upsert_ok(ps.drop_first(), k, v);
        let sub = env_upsert(ps.drop_first(), k, v);
        let r = seq![ps[0]] + sub;
        assert(env_pairs_ok(r)) by {
            assert(forall|j: int| 1 <= j < r.len() ==> r[j] == sub[j - 1]);
            assert(r[0] == ps[0]);
            assert forall|j: int| 0 <= j < sub.len() implies ps[0].0 != sub[j].0 by {
                lemma_env_upsert_keys(ps.drop_first(), k, v, j);
            }
        }
    }
}

/// Every key of an upsert result is the inserted key or an old one.
proof fn lemma_env_upsert_keys(ps: Seq<(Seq<char>, Seq<char>)>, k: Seq<char>, v: Seq<char>, j: int)
    requires
        0 <= j < env_upsert(ps, k, v).len(),
    ensures
        env_upsert(ps, k, v)[j].0 == k || exists|i: int|
            0 <= i < ps.len() && ps[i].0 == #[trigger] env_upsert(ps, k, v)[j].0,
    decreases ps.len(),
{
    if ps.len() == 0 {
    } else if ps[0].0 == k {
        if j > 0 {
            assert(env_upsert(ps, k, v)[j] == ps.drop_first()[j - 1]);
            assert(ps[j] == ps.drop_first()[j - 1]);
        }
    } else {
        if j == 0 {
            assert(env_upsert(ps, k, v)[0] == ps[0]);
        } else {
            lemma_env_upsert_keys(ps.drop_first(), k, v, j - 1);
            assert(env_upsert(ps, k, v)[j] == env_upsert(ps.drop_first(), k, v)[j - 1]);
            if env_upsert(ps.drop_first(), k, v)[j - 1].0 != k {
                let i = choose|i: int|
                    0 <= i < ps.drop_first().len() && ps.drop_first()[i].0 == env_upsert(
                        ps.drop_first(),
                        k,
                        v,
                    )[j - 1].0;
                assert(ps[i + 1].0 == env_upsert(ps, k, v)[j].0);
            }
        }
    }
}

/// A scalar assignment only stores pieces of the line it reads.
proof fn lemma_scalar_ok(doc: PlistView, key: Seq<char>, line: Seq<char>)
    requires
        supported(doc),
        text_ok(line),
    ensures
        supported(scalar_assign(doc, key, line)),
{
    if string_form(line) {
        assert(text_ok(str_inner(line)));
    }
}

/// One decoded line keeps everything accumulated line-sized.
#[verifier::rlimit(100)]
proof fn lemma_step_ok(st: DecState, raw: Seq<char>)
    requires
        st_ok(st),
        text_ok(raw),
    ensures
        st_ok(spec_step(st, raw)),
{
    crate::text::lemma_trim_no_nl(raw);
    let line = spec_trim(raw);
    assert(text_ok(line));
    let r = spec_step(st, raw);
    if line == "<dict>"@ && !st.collecting_env {
    } else if line == "</dict>"@ {
    } else if line == "<array>"@ {
    } else if line == "</array>"@ {
    } else if st.collecting_env && key_form(line) {
        assert(text_ok(key_inner(line)));
    } else if st.collecting_env && string_form(line) {
        lemma_env_upsert_ok(st.env, st.env_key, str_inner(line));
    } else if st.in_dict && key_form(line) {
    } else if st.in_dict && st.current_key.len() > 0 {
        lemma_scalar_ok(st.doc, st.current_key, line);
        if st.collecting_array && string_form(line) {
            assert(text_ok(str_inner(line)));
        }
    } else {
    }
}

proof fn lemma_run_ok(st: DecState, ls: Seq<Seq<char>>)
    requires
        st_ok(st),
        texts_ok(ls),
    ensures
        st_ok(run_lines(st, ls)),
    decreases ls.len(),
{
    if ls.len() > 0 {
        lemma_step_ok(st, ls[0]);
        assert(texts_ok(ls.drop_first())) by {
            assert(forall|k: int| 0 <= k < ls.drop_first().len() ==> ls.drop_first()[k] == ls[k
                + 1]);
        }
        lemma_run_ok(spec_step(st, ls[0]), ls.drop_first());
    }
}

/// Whatever the text, the decoded document is itself supported: decoded
/// values come from single lines and decoded mappings have distinct keys.
pub proof fn lemma_decode_supported(t: Seq<char>)
    ensures
        supported(spec_decode(t)),
{
    crate::text::lemma_lines_no_nl(t);
    assert forall|k: int| 0 <= k < spec_lines(t).len() implies text_ok(
        #[trigger] spec_lines(t)[k],
    ) by {
        assert(crate::text::text_has_no_nl(spec_lines(t)[k]));
    }
    lemma_run_ok(init_state(), spec_lines(t));
}

/// Re-encoding a decoded document is stable: encoding is canonical, so one
/// decode-encode round settles the text for good.
pub proof fn lemma_reencode_stable(d: PlistView)
    ensures
        spec_encode(spec_decode(spec_encode(d))) == spec_encode(
            spec_decode(spec_encode(spec_decode(spec_encode(d)))),
        ),
{
    let d1 = spec_decode(spec_encode(d));
    lemma_decode_supported(spec_encode(d));
    lemma_round_trip(d1);
}

/// The last occurrence of a duplicated key wins: whatever label any earlier
/// lines established, a further label entry replaces it with its own value.
pub proof fn lemma_duplicate_key_last_wins(p: Seq<Seq<char>>, s: Seq<char>)
    requires
        clean(run_lines(init_state(), p)),
    ensures
        run_lines(init_state(), p + string_attr_lines("Label"@, Some(s))).doc == (PlistView {
            label: Some(s),
            ..run_lines(init_state(), p).doc
        }),
{
    lemma_run_append(init_state(), p, string_attr_lines("Label"@, Some(s)));
    lemma_apply_label(run_lines(init_state(), p), s);
}

} // verus!

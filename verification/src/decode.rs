//! The decoder half of the transcoder: a line-oriented state machine over
//! the descriptor text. Decoding is total: malformed or unknown content is
//! skipped and simply absent from the result.

use vstd::prelude::*;
use vstd::pervasive::VecAdditionalExecFns;
use crate::model::{PlistData, PlistView, SessionTypeView, LimitLoadToSessionType};
use crate::text::{
    chars_eq_str, chars_to_string, copy_range, has_prefix, has_suffix, parse_i32_chars, spec_lines,
    spec_parse_i32, spec_trim, split_lines, starts_with_str, str_chars, trim_chars, ends_with_str,
};

verus! {

/// Copies a vector of strings, keeping every character.
fn clone_strings(v: &Vec<String>) -> (r: Vec<String>)
    ensures
        r.deep_view() == v.deep_view(),
{
    let mut r: Vec<String> = Vec::new();
    let mut i: usize = 0;
    while i < v.len()
        invariant
            i <= v@.len(),
            r@.len() == i,
            forall|j: int| 0 <= j < i ==> r@[j]@ == v@[j]@,
        decreases v@.len() - i,
    {
        r.push(v[i].clone());
        i = i + 1;
    }
    proof {
        assert(r.deep_view() =~= v.deep_view());
    }
    r
}

/// Copies the environment accumulation, keeping every key and value.
fn clone_env(v: &Vec<(String, String)>) -> (r: Vec<(String, String)>)
    ensures
        r.deep_view() == v.deep_view(),
{
    let mut r: Vec<(String, String)> = Vec::new();
    let mut i: usize = 0;
    while i < v.len()
        invariant
            i <= v@.len(),
            r@.len() == i,
            forall|j: int| 0 <= j < i ==> r@[j].0@ == v@[j].0@ && r@[j].1@ == v@[j].1@,
        decreases v@.len() - i,
    {
        r.push((v[i].0.clone(), v[i].1.clone()));
        i = i + 1;
    }
    proof {
        assert(r.deep_view() =~= v.deep_view());
    }
    r
}

/// A trimmed line of the shape `<string>...</string>`.
pub open spec fn string_form(line: Seq<char>) -> bool {
    has_prefix(line, "<string>"@) && has_suffix(line, "</string>"@) && line.len() >= 17
}

/// The text between the string tags.
pub open spec fn str_inner(line: Seq<char>) -> Seq<char> {
    line.subrange(8, line.len() - 9)
}

/// A trimmed line of the shape `<key>...</key>`.
pub open spec fn key_form(line: Seq<char>) -> bool {
    has_prefix(line, "<key>"@) && has_suffix(line, "</key>"@) && line.len() >= 11
}

/// The text between the key tags.
pub open spec fn key_inner(line: Seq<char>) -> Seq<char> {
    line.subrange(5, line.len() - 6)
}

/// A trimmed line of the shape `<integer>...</integer>`.
pub open spec fn integer_form(line: Seq<char>) -> bool {
    has_prefix(line, "<integer>"@) && has_suffix(line, "</integer>"@) && line.len() >= 19
}

/// The text between the integer tags.
pub open spec fn int_inner(line: Seq<char>) -> Seq<char> {
    line.subrange(9, line.len() - 10)
}

/// Inserts a key-value pair into an association list: an existing key keeps
/// its position and gets the new value, a new key is appended.
pub open spec fn env_upsert(
    ps: Seq<(Seq<char>, Seq<char>)>,
    k: Seq<char>,
    v: Seq<char>,
) -> Seq<(Seq<char>, Seq<char>)>
    decreases ps.len(),
{
    if ps.len() == 0 {
        seq![(k, v)]
    } else if ps[0].0 == k {
        seq![(k, v)] + ps.drop_first()
    } else {
        seq![ps[0]] + env_upsert(ps.drop_first(), k, v)
    }
}

/// The decoder state between lines: the document built so far, the key that
/// governs the next value, and the three nesting contexts.
#[verifier::ext_equal]
pub struct DecState {
    pub doc: PlistView,
    pub in_dict: bool,
    pub current_key: Seq<char>,
    pub program_args: Seq<Seq<char>>,
    pub bundle_ids: Seq<Seq<char>>,
    pub session_types: Seq<Seq<char>>,
    pub env: Seq<(Seq<char>, Seq<char>)>,
    pub env_key: Seq<char>,
    pub collecting_array: bool,
    pub collecting_env: bool,
    pub array_type: Seq<char>,
}

pub open spec fn init_state() -> DecState {
    DecState {
        doc: PlistView::empty(),
        in_dict: false,
        current_key: Seq::empty(),
        program_args: Seq::empty(),
        bundle_ids: Seq::empty(),
        session_types: Seq::empty(),
        env: Seq::empty(),
        env_key: Seq::empty(),
        collecting_array: false,
        collecting_env: false,
        array_type: Seq::empty(),
    }
}

/// A scalar value line assigns to the attribute the current key names,
/// typed by the fixed key table; anything else is skipped.
pub open spec fn scalar_assign(doc: PlistView, key: Seq<char>, line: Seq<char>) -> PlistView {
    if key == "Label"@ {
        if string_form(line) {
            PlistView { label: Some(str_inner(line)), ..doc }
        } else {
            doc
        }
    } else if key == "Program"@ {
        if string_form(line) {
            PlistView { program: Some(str_inner(line)), ..doc }
        } else {
            doc
        }
    } else if key == "StartInterval"@ {
        if integer_form(line) {
            match spec_parse_i32(int_inner(line)) {
                Some(n) => PlistView { start_interval: Some(n), ..doc },
                None => doc,
            }
        } else {
            doc
        }
    } else if key == "ThrottleInterval"@ {
        if integer_form(line) {
            match spec_parse_i32(int_inner(line)) {
                Some(n) => PlistView { throttle_interval: Some(n), ..doc },
                None => doc,
            }
        } else {
            doc
        }
    } else if key == "RunAtLoad"@ {
        PlistView { run_at_load: Some(line == "<true/>"@), ..doc }
    } else if key == "KeepAlive"@ {
        PlistView { keep_alive: Some(line == "<true/>"@), ..doc }
    } else if key == "AbandonProcessGroup"@ {
        PlistView { abandon_process_group: Some(line == "<true/>"@), ..doc }
    } else if key == "EnablePressuredExit"@ {
        PlistView { enable_pressured_exit: Some(line == "<true/>"@), ..doc }
    } else if key == "EnableTransactions"@ {
        PlistView { enable_transactions: Some(line == "<true/>"@), ..doc }
    } else if key == "EventMonitor"@ {
        PlistView { event_monitor: Some(line == "<true/>"@), ..doc }
    } else if key == "StandardOutPath"@ {
        if string_form(line) {
            PlistView { standard_out_path: Some(str_inner(line)), ..doc }
        } else {
            doc
        }
    } else if key == "StandardErrorPath"@ {
        if string_form(line) {
            PlistView { standard_error_path: Some(str_inner(line)), ..doc }
        } else {
            doc
        }
    } else if key == "WorkingDirectory"@ {
        if string_form(line) {
            PlistView { working_directory: Some(str_inner(line)), ..doc }
        } else {
            doc
        }
    } else if key == "POSIXSpawnType"@ {
        if string_form(line) {
            PlistView { posix_spawn_type: Some(str_inner(line)), ..doc }
        } else {
            doc
        }
    } else if key == "LimitLoadToSessionType"@ {
        if string_form(line) {
            PlistView {
                limit_load_to_session_type: Some(SessionTypeView::Single(str_inner(line))),
                ..doc
            }
        } else {
            doc
        }
    } else {
        doc
    }
}

/// One step of the decoder: how one raw line changes the state.
pub open spec fn spec_step(st: DecState, raw: Seq<char>) -> DecState {
    let line = spec_trim(raw);
    if line == "<dict>"@ && !st.collecting_env {
        if st.current_key == "EnvironmentVariables"@ {
            DecState { collecting_env: true, ..st }
        } else {
            DecState { in_dict: true, ..st }
        }
    } else if line == "</dict>"@ {
        if st.collecting_env {
            DecState {
                doc: PlistView { environment_variables: Some(st.env), ..st.doc },
                collecting_env: false,
                current_key: Seq::empty(),
                ..st
            }
        } else {
            DecState { in_dict: false, ..st }
        }
    } else if line == "<array>"@ {
        let st1 = DecState { collecting_array: true, array_type: st.current_key, ..st };
        if st.current_key == "ProgramArguments"@ {
            DecState { program_args: Seq::empty(), ..st1 }
        } else if st.current_key == "AssociatedBundleIdentifiers"@ {
            DecState { bundle_ids: Seq::empty(), ..st1 }
        } else if st.current_key == "LimitLoadToSessionType"@ {
            DecState { session_types: Seq::empty(), ..st1 }
        } else {
            st1
        }
    } else if line == "</array>"@ {
        let doc1 = if st.array_type == "ProgramArguments"@ {
            PlistView { program_arguments: Some(st.program_args), ..st.doc }
        } else if st.array_type == "AssociatedBundleIdentifiers"@ {
            PlistView { associated_bundle_identifiers: Some(st.bundle_ids), ..st.doc }
        } else if st.array_type == "LimitLoadToSessionType"@ {
            PlistView {
                limit_load_to_session_type: Some(SessionTypeView::Multiple(st.session_types)),
                ..st.doc
            }
        } else {
            st.doc
        };
        DecState { doc: doc1, collecting_array: false, current_key: Seq::empty(), ..st }
    } else if st.collecting_env && key_form(line) {
        DecState { env_key: key_inner(line), ..st }
    } else if st.collecting_env && string_form(line) {
        DecState {
            env: env_upsert(st.env, st.env_key, str_inner(line)),
            env_key: Seq::empty(),
            ..st
        }
    } else if st.in_dict && key_form(line) {
        DecState { current_key: key_inner(line), ..st }
    } else if st.in_dict && st.current_key.len() > 0 {
        let st1 = DecState { doc: scalar_assign(st.doc, st.current_key, line), ..st };
        let st2 = if st.collecting_array && string_form(line) {
            if st.array_type == "ProgramArguments"@ {
                DecState { program_args: st1.program_args.push(str_inner(line)), ..st1 }
            } else if st.array_type == "AssociatedBundleIdentifiers"@ {
                DecState { bundle_ids: st1.bundle_ids.push(str_inner(line)), ..st1 }
            } else if st.array_type == "LimitLoadToSessionType"@ {
                DecState { session_types: st1.session_types.push(str_inner(line)), ..st1 }
            } else {
                st1
            }
        } else {
            st1
        };
        if !st.collecting_array && !st.collecting_env {
            DecState { current_key: Seq::empty(), ..st2 }
        } else {
            st2
        }
    } else {
        st
    }
}

/// The decoder run over a sequence of raw lines.
pub open spec fn run_lines(st: DecState, ls: Seq<Seq<char>>) -> DecState
    decreases ls.len(),
{
    if ls.len() == 0 {
        st
    } else {
        run_lines(spec_step(st, ls[0]), ls.drop_first())
    }
}

pub proof fn lemma_run_push(st: DecState, ls: Seq<Seq<char>>, x: Seq<char>)
    ensures
        run_lines(st, ls.push(x)) == spec_step(run_lines(st, ls), x),
    decreases ls.len(),
{
    if ls.len() == 0 {
        assert(ls.push(x)[0] == x);
        assert(ls.push(x).drop_first() =~= Seq::<Seq<char>>::empty());
        assert(run_lines(spec_step(st, x), Seq::empty()) == spec_step(st, x));
    } else {
        assert(ls.push(x)[0] == ls[0]);
        assert(ls.push(x).drop_first() =~= ls.drop_first().push(x));
        lemma_run_push(spec_step(st, ls[0]), ls.drop_first(), x);
    }
}

/// What decoding a whole text yields: the document left after every line
/// was stepped through, ignoring unfinished collections.
pub open spec fn spec_decode(t: Seq<char>) -> PlistView {
    run_lines(init_state(), spec_lines(t)).doc
}

fn is_string_form(line: &Vec<char>) -> (r: bool)
    ensures
        r == string_form(line@),
{
    starts_with_str(line, "<string>") && ends_with_str(line, "</string>") && line.len() >= 17
}

fn is_key_form(line: &Vec<char>) -> (r: bool)
    ensures
        r == key_form(line@),
{
    starts_with_str(line, "<key>") && ends_with_str(line, "</key>") && line.len() >= 11
}

fn is_integer_form(line: &Vec<char>) -> (r: bool)
    ensures
        r == integer_form(line@),
{
    starts_with_str(line, "<integer>") && ends_with_str(line, "</integer>") && line.len() >= 19
}

/// Applies one scalar value line under the given key to the document.
fn apply_scalar(doc: &mut PlistData, key: &Vec<char>, line: &Vec<char>)
    ensures
        final(doc)@ == scalar_assign(old(doc)@, key@, line@),
{
    if chars_eq_str(key, "Label") {
        if is_string_form(line) {
            let v = copy_range(line, 8, line.len() - 9);
            doc.label = Some(chars_to_string(&v));
        }
    } else if chars_eq_str(key, "Program") {
        if is_string_form(line) {
            let v = copy_range(line, 8, line.len() - 9);
            doc.program = Some(chars_to_string(&v));
        }
    } else if chars_eq_str(key, "StartInterval") {
        if is_integer_form(line) {
            let v = copy_range(line, 9, line.len() - 10);
            match parse_i32_chars(&v) {
                Some(n) => {
                    doc.start_interval = Some(n);
                },
                None => {},
            }
        }
    } else if chars_eq_str(key, "ThrottleInterval") {
        if is_integer_form(line) {
            let v = copy_range(line, 9, line.len() - 10);
            match parse_i32_chars(&v) {
                Some(n) => {
                    doc.throttle_interval = Some(n);
                },
                None => {},
            }
        }
    } else if chars_eq_str(key, "RunAtLoad") {
        doc.run_at_load = Some(chars_eq_str(line, "<true/>"));
    } else if chars_eq_str(key, "KeepAlive") {
        doc.keep_alive = Some(chars_eq_str(line, "<true/>"));
    } else if chars_eq_str(key, "AbandonProcessGroup") {
        doc.abandon_process_group = Some(chars_eq_str(line, "<true/>"));
    } else if chars_eq_str(key, "EnablePressuredExit") {
        doc.enable_pressured_exit = Some(chars_eq_str(line, "<true/>"));
    } else if chars_eq_str(key, "EnableTransactions") {
        doc.enable_transactions = Some(chars_eq_str(line, "<true/>"));
    } else if chars_eq_str(key, "EventMonitor") {
        doc.event_monitor = Some(chars_eq_str(line, "<true/>"));
    } else if chars_eq_str(key, "StandardOutPath") {
        if is_string_form(line) {
            let v = copy_range(line, 8, line.len() - 9);
            doc.standard_out_path = Some(chars_to_string(&v));
        }
    } else if chars_eq_str(key, "StandardErrorPath") {
        if is_string_form(line) {
            let v = copy_range(line, 8, line.len() - 9);
            doc.standard_error_path = Some(chars_to_string(&v));
        }
    } else if chars_eq_str(key, "WorkingDirectory") {
        if is_string_form(line) {
            let v = copy_range(line, 8, line.len() - 9);
            doc.working_directory = Some(chars_to_string(&v));
        }
    } else if chars_eq_str(key, "POSIXSpawnType") {
        if is_string_form(line) {
            let v = copy_range(line, 8, line.len() - 9);
            doc.posix_spawn_type = Some(chars_to_string(&v));
        }
    } else if chars_eq_str(key, "LimitLoadToSessionType") {
        if is_string_form(line) {
            let v = copy_range(line, 8, line.len() - 9);
            doc.limit_load_to_session_type = Some(
                LimitLoadToSessionType::Single(chars_to_string(&v)),
            );
        }
    }
    proof {
        assert(doc@ =~= scalar_assign(old(doc)@, key@, line@));
    }
}

/// Inserts a pair into the environment accumulation, replacing the value of
/// an existing key in place.
pub(crate) fn env_upsert_exec(env: &mut Vec<(String, String)>, k: String, v: String)
    ensures
        final(env).deep_view() == env_upsert(old(env).deep_view(), k@, v@),
{
    let mut i: usize = 0;
    while i < env.len()
        invariant
            i <= env@.len(),
            env@ == old(env)@,
            forall|j: int| 0 <= j < i ==> old(env)@[j].0@ != k@,
        decreases env@.len() - i,
    {
        if env[i].0.eq(&k) {
            let ghost idx = i as int;
            env.set(i, (k, v));
            proof {
                lemma_env_upsert_found(old(env).deep_view(), k@, v@, idx);
                assert(env.deep_view() =~~= env_upsert(old(env).deep_view(), k@, v@));
            }
            return ;
        }
        i = i + 1;
    }
    env.push((k, v));
    proof {
        lemma_env_upsert_missing(old(env).deep_view(), k@, v@);
        assert(env.deep_view() =~~= env_upsert(old(env).deep_view(), k@, v@));
    }
}

proof fn lemma_env_upsert_found(ps: Seq<(Seq<char>, Seq<char>)>, k: Seq<char>, v: Seq<char>, i: int)
    requires
        0 <= i < ps.len(),
        forall|j: int| 0 <= j < i ==> ps[j].0 != k,
        ps[i].0 == k,
    ensures
        env_upsert(ps, k, v) == ps.update(i, (k, v)),
    decreases ps.len(),
{
    if i == 0 {
        assert(env_upsert(ps, k, v) == seq![(k, v)] + ps.drop_first());
        assert(seq![(k, v)] + ps.drop_first() =~= ps.update(0, (k, v)));
    } else {
        assert(ps[0].0 != k);
        assert(forall|j: int| 0 <= j < i - 1 ==> ps.drop_first()[j].0 != k);
        assert(ps.drop_first()[i - 1].0 == k);
        lemma_env_upsert_found(ps.drop_first(), k, v, i - 1);
        assert(seq![ps[0]] + ps.drop_first().update(i - 1, (k, v)) =~= ps.update(i, (k, v)));
    }
}

pub proof fn lemma_env_upsert_missing(ps: Seq<(Seq<char>, Seq<char>)>, k: Seq<char>, v: Seq<char>)
    requires
        forall|j: int| 0 <= j < ps.len() ==> ps[j].0 != k,
    ensures
        env_upsert(ps, k, v) == ps.push((k, v)),
    decreases ps.len(),
{
    if ps.len() == 0 {
        assert(seq![(k, v)] =~= ps.push((k, v)));
    } else {
        assert(forall|j: int| 0 <= j < ps.drop_first().len() ==> ps.drop_first()[j].0 != k);
        lemma_env_upsert_missing(ps.drop_first(), k, v);
        assert(seq![ps[0]] + ps.drop_first().push((k, v)) =~= ps.push((k, v)));
    }
}

/// Reads descriptor text into a document. Decoding never fails: unknown
/// keys, unparsable integers and malformed lines are skipped, and a text
/// with no recognizable structure yields the default document.
#[verifier::rlimit(100)]
pub fn parse_plist_xml(content: &str) -> (r: PlistData)
    ensures
        r@ == spec_decode(content@),
{
    let chars = str_chars(content);
    let lines = split_lines(&chars);
    let ghost lv = lines.deep_view();
    proof {
        assert(lv == spec_lines(content@));
    }
    let mut doc = PlistData::default();
    let mut in_dict = false;
    let mut current_key: Vec<char> = Vec::new();
    let mut program_args: Vec<String> = Vec::new();
    let mut bundle_ids: Vec<String> = Vec::new();
    let mut session_types: Vec<String> = Vec::new();
    let mut env: Vec<(String, String)> = Vec::new();
    let mut env_key: Vec<char> = Vec::new();
    let mut collecting_array = false;
    let mut collecting_env = false;
    let mut array_type: Vec<char> = Vec::new();
    let mut i: usize = 0;
    proof {
        assert(lv.take(0) =~= Seq::<Seq<char>>::empty());
        assert(pack(
            doc@,
            in_dict,
            current_key@,
            program_args.deep_view(),
            bundle_ids.deep_view(),
            session_types.deep_view(),
            env.deep_view(),
            env_key@,
            collecting_array,
            collecting_env,
            array_type@,
        ) =~~= run_lines(init_state(), lv.take(0)));
    }
    while i < lines.len()
        invariant
            i <= lv.len(),
            lv == lines.deep_view(),
            lv.len() == lines@.len(),
            pack(
                doc@,
                in_dict,
                current_key@,
                program_args.deep_view(),
                bundle_ids.deep_view(),
                session_types.deep_view(),
                env.deep_view(),
                env_key@,
                collecting_array,
                collecting_env,
                array_type@,
            ) == run_lines(init_state(), lv.take(i as int)),
        decreases lv.len() - i,
    {
        let ghost st = run_lines(init_state(), lv.take(i as int));
        let ghost raw = lv[i as int];
        proof {
            assert(lines.deep_view()[i as int] == lines@[i as int]@);
            lemma_run_push(init_state(), lv.take(i as int), raw);
            assert(lv.take(i as int).push(raw) =~= lv.take(i + 1));
        }
        let line = trim_chars(&lines[i]);
        proof {
            assert(line@ == spec_trim(raw));
        }
        if chars_eq_str(&line, "<dict>") && !collecting_env {
            if chars_eq_str(&current_key, "EnvironmentVariables") {
                collecting_env = true;
            } else {
                in_dict = true;
            }
        } else if chars_eq_str(&line, "</dict>") {
            if collecting_env {
                collecting_env = false;
                doc.environment_variables = Some(clone_env(&env));
                current_key = Vec::new();
            } else {
                in_dict = false;
            }
        } else if chars_eq_str(&line, "<array>") {
            collecting_array = true;
            array_type = copy_range(&current_key, 0, current_key.len());
            proof {
                assert(array_type@ =~= current_key@);
            }
            if chars_eq_str(&array_type, "ProgramArguments") {
                program_args = Vec::new();
            } else if chars_eq_str(&array_type, "AssociatedBundleIdentifiers") {
                bundle_ids = Vec::new();
            } else if chars_eq_str(&array_type, "LimitLoadToSessionType") {
                session_types = Vec::new();
            }
            proof {
                assert(program_args.deep_view() =~~= spec_step(st, raw).program_args);
                assert(bundle_ids.deep_view() =~~= spec_step(st, raw).bundle_ids);
                assert(session_types.deep_view() =~~= spec_step(st, raw).session_types);
            }
        } else if chars_eq_str(&line, "</array>") {
            collecting_array = false;
            if chars_eq_str(&array_type, "ProgramArguments") {
                doc.program_arguments = Some(clone_strings(&program_args));
            } else if chars_eq_str(&array_type, "AssociatedBundleIdentifiers") {
                doc.associated_bundle_identifiers = Some(clone_strings(&bundle_ids));
            } else if chars_eq_str(&array_type, "LimitLoadToSessionType") {
                doc.limit_load_to_session_type = Some(
                    LimitLoadToSessionType::Multiple(clone_strings(&session_types)),
                );
            }
            current_key = Vec::new();
        } else if collecting_env && is_key_form(&line) {
            env_key = copy_range(&line, 5, line.len() - 6);
        } else if collecting_env && is_string_form(&line) {
            let v = copy_range(&line, 8, line.len() - 9);
            let ks = chars_to_string(&env_key);
            let vs = chars_to_string(&v);
            env_upsert_exec(&mut env, ks, vs);
            env_key = Vec::new();
        } else if in_dict && is_key_form(&line) {
            current_key = copy_range(&line, 5, line.len() - 6);
        } else if in_dict && current_key.len() > 0 {
            apply_scalar(&mut doc, &current_key, &line);
            if collecting_array && is_string_form(&line) {
                let v = copy_range(&line, 8, line.len() - 9);
                if chars_eq_str(&array_type, "ProgramArguments") {
                    program_args.push(chars_to_string(&v));
                    proof {
                        assert(program_args.deep_view() =~~= st.program_args.push(str_inner(
                            line@,
                        )));
                    }
                } else if chars_eq_str(&array_type, "AssociatedBundleIdentifiers") {
                    bundle_ids.push(chars_to_string(&v));
                    proof {
                        assert(bundle_ids.deep_view() =~~= st.bundle_ids.push(str_inner(line@)));
                    }
                } else if chars_eq_str(&array_type, "LimitLoadToSessionType") {
                    session_types.push(chars_to_string(&v));
                    proof {
                        assert(session_types.deep_view() =~~= st.session_types.push(str_inner(
                            line@,
                        )));
                    }
                }
            }
            if !collecting_array && !collecting_env {
                current_key = Vec::new();
            }
        }
        proof {
            assert(pack(
                doc@,
                in_dict,
                current_key@,
                program_args.deep_view(),
                bundle_ids.deep_view(),
                session_types.deep_view(),
                env.deep_view(),
                env_key@,
                collecting_array,
                collecting_env,
                array_type@,
            ) =~~= spec_step(st, raw));
        }
        i = i + 1;
    }
    proof {
        assert(lv.take(lv.len() as int) =~= lv);
    }
    doc
}

/// The decoder state the executable locals stand for.
pub open spec fn pack(
    doc: PlistView,
    in_dict: bool,
    current_key: Seq<char>,
    program_args: Seq<Seq<char>>,
    bundle_ids: Seq<Seq<char>>,
    session_types: Seq<Seq<char>>,
    env: Seq<(Seq<char>, Seq<char>)>,
    env_key: Seq<char>,
    collecting_array: bool,
    collecting_env: bool,
    array_type: Seq<char>,
) -> DecState {
    DecState {
        doc,
        in_dict,
        current_key,
        program_args,
        bundle_ids,
        session_types,
        env,
        env_key,
        collecting_array,
        collecting_env,
        array_type,
    }
}

} // verus!

//! The encoder half of the transcoder: renders a document into the
//! line-oriented descriptor text, with a fixed canonical key order.

use vstd::prelude::*;
use crate::model::{PlistData, PlistView, SessionTypeView};
use crate::text::{
    blank_line, extend_chars, extend_vec, i32_chars, join_lines, lemma_join_append, spec_i32_chars,
};
use crate::text::chars_to_string;

verus! {

/// A key element, without indentation.
pub open spec fn core_key(name: Seq<char>) -> Seq<char> {
    "<key>"@ + name + "</key>"@
}

/// A string element, without indentation.
pub open spec fn core_string(s: Seq<char>) -> Seq<char> {
    "<string>"@ + s + "</string>"@
}

/// An integer element, without indentation.
pub open spec fn core_integer(n: i32) -> Seq<char> {
    "<integer>"@ + spec_i32_chars(n as int) + "</integer>"@
}

/// A boolean element: an empty tag named after the value.
pub open spec fn bool_core(b: bool) -> Seq<char> {
    if b {
        "<true/>"@
    } else {
        "<false/>"@
    }
}

/// A key element line of the top-level dictionary.
pub open spec fn key_line(name: Seq<char>) -> Seq<char> {
    "    "@ + core_key(name)
}

/// A scalar string value line.
pub open spec fn string_value_line(s: Seq<char>) -> Seq<char> {
    "    "@ + core_string(s)
}

/// A string element line inside an array.
pub open spec fn array_elem_line(s: Seq<char>) -> Seq<char> {
    "        "@ + core_string(s)
}

/// An integer value line.
pub open spec fn integer_value_line(n: i32) -> Seq<char> {
    "    "@ + core_integer(n)
}

/// A boolean value line: an empty tag named after the value.
pub open spec fn bool_value_line(b: bool) -> Seq<char> {
    "    "@ + bool_core(b)
}

/// A key line of the environment sub-dictionary.
pub open spec fn env_key_line(k: Seq<char>) -> Seq<char> {
    "        "@ + core_key(k)
}

/// A value line of the environment sub-dictionary.
pub open spec fn env_value_line(v: Seq<char>) -> Seq<char> {
    "        "@ + core_string(v)
}

/// The lines of one scalar string attribute, nothing when absent.
pub open spec fn string_attr_lines(name: Seq<char>, v: Option<Seq<char>>) -> Seq<Seq<char>> {
    match v {
        None => Seq::empty(),
        Some(s) => seq![key_line(name), string_value_line(s), blank_line()],
    }
}

/// The lines of one integer attribute.
pub open spec fn int_attr_lines(name: Seq<char>, v: Option<i32>) -> Seq<Seq<char>> {
    match v {
        None => Seq::empty(),
        Some(n) => seq![key_line(name), integer_value_line(n), blank_line()],
    }
}

/// The lines of one boolean attribute.
pub open spec fn bool_attr_lines(name: Seq<char>, v: Option<bool>) -> Seq<Seq<char>> {
    match v {
        None => Seq::empty(),
        Some(b) => seq![key_line(name), bool_value_line(b), blank_line()],
    }
}

/// The element lines of a string array.
pub open spec fn array_elem_lines(es: Seq<Seq<char>>) -> Seq<Seq<char>> {
    es.map_values(|e: Seq<char>| array_elem_line(e))
}

/// The lines of one string-list attribute.
pub open spec fn array_attr_lines(name: Seq<char>, v: Option<Seq<Seq<char>>>) -> Seq<Seq<char>> {
    match v {
        None => Seq::empty(),
        Some(es) => seq![key_line(name), array_open_line()] + array_elem_lines(es) + seq![
            array_close_line(),
            blank_line(),
        ],
    }
}

/// The lines of the session-type attribute: a single string or an array.
pub open spec fn session_attr_lines(v: Option<SessionTypeView>) -> Seq<Seq<char>> {
    match v {
        None => Seq::empty(),
        Some(SessionTypeView::Single(s)) => seq![
            key_line("LimitLoadToSessionType"@),
            string_value_line(s),
            blank_line(),
        ],
        Some(SessionTypeView::Multiple(es)) => seq![
            key_line("LimitLoadToSessionType"@),
            array_open_line(),
        ] + array_elem_lines(es) + seq![array_close_line(), blank_line()],
    }
}

/// The alternating key and value lines of the environment mapping.
pub open spec fn env_pair_lines(ps: Seq<(Seq<char>, Seq<char>)>) -> Seq<Seq<char>>
    decreases ps.len(),
{
    if ps.len() == 0 {
        Seq::empty()
    } else {
        seq![env_key_line(ps[0].0), env_value_line(ps[0].1)] + env_pair_lines(ps.drop_first())
    }
}

pub proof fn lemma_env_pair_lines_push(ps: Seq<(Seq<char>, Seq<char>)>, p: (Seq<char>, Seq<char>))
    ensures
        env_pair_lines(ps.push(p)) == env_pair_lines(ps) + seq![
            env_key_line(p.0),
            env_value_line(p.1),
        ],
    decreases ps.len(),
{
    if ps.len() == 0 {
        assert(env_pair_lines(Seq::<(Seq<char>, Seq<char>)>::empty()) == Seq::<Seq<char>>::empty());
        assert(ps =~= Seq::<(Seq<char>, Seq<char>)>::empty());
        assert(ps.push(p).drop_first() =~= Seq::<(Seq<char>, Seq<char>)>::empty());
        assert(env_pair_lines(ps.push(p)) =~= env_pair_lines(ps) + seq![
            env_key_line(p.0),
            env_value_line(p.1),
        ]);
    } else {
        assert(ps.push(p).drop_first() =~= ps.drop_first().push(p));
        assert(ps.push(p)[0] == ps[0]);
        lemma_env_pair_lines_push(ps.drop_first(), p);
        assert(env_pair_lines(ps.push(p)) =~= env_pair_lines(ps) + seq![
            env_key_line(p.0),
            env_value_line(p.1),
        ]);
    }
}

/// The lines of the environment-variables attribute.
pub open spec fn env_attr_lines(v: Option<Seq<(Seq<char>, Seq<char>)>>) -> Seq<Seq<char>> {
    match v {
        None => Seq::empty(),
        Some(ps) => seq![key_line("EnvironmentVariables"@), dict_open_line()] + env_pair_lines(ps)
            + seq![dict_close_line(), blank_line()],
    }
}

pub open spec fn array_open_line() -> Seq<char> {
    "    "@ + "<array>"@
}

pub open spec fn array_close_line() -> Seq<char> {
    "    "@ + "</array>"@
}

pub open spec fn dict_open_line() -> Seq<char> {
    "    "@ + "<dict>"@
}

pub open spec fn dict_close_line() -> Seq<char> {
    "    "@ + "</dict>"@
}

/// The fixed document frame before the attributes.
pub open spec fn header_lines() -> Seq<Seq<char>> {
    seq![
        "<?xml version=\"1.0\" encoding=\"UTF-8\"?>"@,
        "<!DOCTYPE plist PUBLIC \"-//Apple//DTD PLIST 1.0//EN\" \"http://www.apple.com/DTDs/PropertyList-1.0.dtd\">"@,
        "<plist version=\"1.0\">"@,
        "<dict>"@,
    ]
}

/// The fixed document frame after the attributes.
pub open spec fn footer_lines() -> Seq<Seq<char>> {
    seq!["</dict>"@, "</plist>"@]
}

/// Every line the encoder emits for a document, in canonical key order.
pub open spec fn spec_encode_lines(d: PlistView) -> Seq<Seq<char>> {
    header_lines() + string_attr_lines("Label"@, d.label) + array_attr_lines(
        "ProgramArguments"@,
        d.program_arguments,
    ) + int_attr_lines("StartInterval"@, d.start_interval) + bool_attr_lines(
        "RunAtLoad"@,
        d.run_at_load,
    ) + bool_attr_lines("KeepAlive"@, d.keep_alive) + string_attr_lines(
        "StandardOutPath"@,
        d.standard_out_path,
    ) + string_attr_lines("StandardErrorPath"@, d.standard_error_path) + string_attr_lines(
        "WorkingDirectory"@,
        d.working_directory,
    ) + string_attr_lines("Program"@, d.program) + int_attr_lines(
        "ThrottleInterval"@,
        d.throttle_interval,
    ) + bool_attr_lines("AbandonProcessGroup"@, d.abandon_process_group) + bool_attr_lines(
        "EnablePressuredExit"@,
        d.enable_pressured_exit,
    ) + bool_attr_lines("EnableTransactions"@, d.enable_transactions) + bool_attr_lines(
        "EventMonitor"@,
        d.event_monitor,
    ) + string_attr_lines("POSIXSpawnType"@, d.posix_spawn_type) + array_attr_lines(
        "AssociatedBundleIdentifiers"@,
        d.associated_bundle_identifiers,
    ) + session_attr_lines(d.limit_load_to_session_type) + env_attr_lines(
        d.environment_variables,
    ) + footer_lines()
}

/// The whole encoded text: each line closed with a newline.
pub open spec fn spec_encode(d: PlistView) -> Seq<char> {
    join_lines(spec_encode_lines(d))
}

pub proof fn lemma_join1(a: Seq<char>)
    ensures
        join_lines(seq![a]) == a + seq!['\n'],
{
    assert(join_lines(Seq::<Seq<char>>::empty()) == Seq::<char>::empty());
    assert(seq![a].drop_first() =~= Seq::<Seq<char>>::empty());
    assert(a + seq!['\n'] + Seq::<char>::empty() =~= a + seq!['\n']);
}

pub proof fn lemma_join2(a: Seq<char>, b: Seq<char>)
    ensures
        join_lines(seq![a, b]) == a + seq!['\n'] + b + seq!['\n'],
{
    lemma_join1(a);
    lemma_join1(b);
    lemma_join_append(seq![a], seq![b]);
    assert(seq![a] + seq![b] =~= seq![a, b]);
    assert((a + seq!['\n']) + (b + seq!['\n']) =~= a + seq!['\n'] + b + seq!['\n']);
}

pub proof fn lemma_join3(a: Seq<char>, b: Seq<char>, c: Seq<char>)
    ensures
        join_lines(seq![a, b, c]) == a + seq!['\n'] + b + seq!['\n'] + c + seq!['\n'],
{
    lemma_join1(a);
    lemma_join2(b, c);
    lemma_join_append(seq![a], seq![b, c]);
    assert(seq![a] + seq![b, c] =~= seq![a, b, c]);
    assert((a + seq!['\n']) + (b + seq!['\n'] + c + seq!['\n']) =~= a + seq!['\n'] + b + seq!['\n']
        + c + seq!['\n']);
}

pub proof fn lemma_join4(a: Seq<char>, b: Seq<char>, c: Seq<char>, d: Seq<char>)
    ensures
        join_lines(seq![a, b, c, d]) == a + seq!['\n'] + b + seq!['\n'] + c + seq!['\n'] + d
            + seq!['\n'],
{
    lemma_join2(a, b);
    lemma_join2(c, d);
    lemma_join_append(seq![a, b], seq![c, d]);
    assert(seq![a, b] + seq![c, d] =~= seq![a, b, c, d]);
    assert((a + seq!['\n'] + b + seq!['\n']) + (c + seq!['\n'] + d + seq!['\n']) =~= a + seq!['\n']
        + b + seq!['\n'] + c + seq!['\n'] + d + seq!['\n']);
}

/// Appends one whole line: its text and the closing newline.
fn push_line(out: &mut Vec<char>, s: &str)
    ensures
        final(out)@ == old(out)@ + s@ + seq!['\n'],
{
    extend_chars(out, s);
    out.push('\n');
    proof {
        assert(old(out)@ + s@ + seq!['\n'] =~= (old(out)@ + s@).push('\n'));
    }
}

/// Appends a key element line of the top-level dictionary.
fn emit_key_line(out: &mut Vec<char>, name: &str)
    ensures
        final(out)@ == old(out)@ + key_line(name@) + seq!['\n'],
{
    extend_chars(out, "    ");
    extend_chars(out, "<key>");
    extend_chars(out, name);
    extend_chars(out, "</key>");
    out.push('\n');
    proof {
        assert(old(out)@ + key_line(name@) + seq!['\n'] =~= ((((old(out)@ + "    "@) + "<key>"@)
            + name@) + "</key>"@).push('\n'));
    }
}

/// Appends the lines of a scalar string attribute, nothing when absent.
fn emit_string_attr(out: &mut Vec<char>, name: &str, v: &Option<String>)
    ensures
        final(out)@ == old(out)@ + join_lines(string_attr_lines(name@, v.deep_view())),
{
    match v {
        None => {
            proof {
                assert(old(out)@ + join_lines(string_attr_lines(name@, None)) =~= old(out)@);
            }
        },
        Some(s) => {
            emit_key_line(out, name);
            extend_chars(out, "    ");
            extend_chars(out, "<string>");
            extend_chars(out, s.as_str());
            extend_chars(out, "</string>");
            out.push('\n');
            push_line(out, "    ");
            proof {
                lemma_join3(key_line(name@), string_value_line(s@), blank_line());
                assert(out@ =~= old(out)@ + join_lines(
                    string_attr_lines(name@, v.deep_view()),
                ));
            }
        },
    }
}

/// Appends the lines of an integer attribute, nothing when absent.
fn emit_int_attr(out: &mut Vec<char>, name: &str, v: &Option<i32>)
    ensures
        final(out)@ == old(out)@ + join_lines(int_attr_lines(name@, *v)),
{
    match v {
        None => {
            proof {
                assert(old(out)@ + join_lines(int_attr_lines(name@, None)) =~= old(out)@);
            }
        },
        Some(n) => {
            emit_key_line(out, name);
            extend_chars(out, "    ");
            extend_chars(out, "<integer>");
            let digits = i32_chars(*n);
            extend_vec(out, &digits);
            extend_chars(out, "</integer>");
            out.push('\n');
            push_line(out, "    ");
            proof {
                lemma_join3(key_line(name@), integer_value_line(*n), blank_line());
                assert(out@ =~= old(out)@ + join_lines(int_attr_lines(name@, *v)));
            }
        },
    }
}

/// Appends the lines of a boolean attribute, nothing when absent.
fn emit_bool_attr(out: &mut Vec<char>, name: &str, v: &Option<bool>)
    ensures
        final(out)@ == old(out)@ + join_lines(bool_attr_lines(name@, *v)),
{
    match v {
        None => {
            proof {
                assert(old(out)@ + join_lines(bool_attr_lines(name@, None)) =~= old(out)@);
            }
        },
        Some(b) => {
            emit_key_line(out, name);
            extend_chars(out, "    ");
            if *b {
                push_line(out, "<true/>");
            } else {
                push_line(out, "<false/>");
            }
            push_line(out, "    ");
            proof {
                lemma_join3(key_line(name@), bool_value_line(*b), blank_line());
                assert(out@ =~= old(out)@ + join_lines(bool_attr_lines(name@, *v)));
            }
        },
    }
}

/// Appends the element lines of a string array.
fn emit_array_elems(out: &mut Vec<char>, es: &Vec<String>)
    ensures
        final(out)@ == old(out)@ + join_lines(array_elem_lines(es.deep_view())),
{
    let mut i: usize = 0;
    proof {
        assert(array_elem_lines(es.deep_view().take(0)) =~= Seq::<Seq<char>>::empty());
        assert(out@ =~= old(out)@ + join_lines(array_elem_lines(es.deep_view().take(0))));
    }
    while i < es.len()
        invariant
            i <= es@.len(),
            es@.len() == es.deep_view().len(),
            out@ == old(out)@ + join_lines(array_elem_lines(es.deep_view().take(i as int))),
        decreases es@.len() - i,
    {
        extend_chars(out, "        ");
        extend_chars(out, "<string>");
        extend_chars(out, es[i].as_str());
        extend_chars(out, "</string>");
        out.push('\n');
        proof {
            let dv = es.deep_view();
            assert(es@[i as int]@ == dv[i as int]);
            let pre = array_elem_lines(dv.take(i as int));
            let line = array_elem_line(dv[i as int]);
            assert(array_elem_lines(dv.take(i + 1)) =~= pre.push(line));
            assert(pre.push(line) =~= pre + seq![line]);
            lemma_join_append(pre, seq![line]);
            lemma_join1(line);
            assert(out@ =~= old(out)@ + join_lines(array_elem_lines(dv.take(i + 1))));
        }
        i = i + 1;
    }
    proof {
        assert(es.deep_view().take(es@.len() as int) =~= es.deep_view());
    }
}

/// Appends the lines of a string-list attribute, nothing when absent.
fn emit_array_attr(out: &mut Vec<char>, name: &str, v: &Option<Vec<String>>)
    ensures
        final(out)@ == old(out)@ + join_lines(array_attr_lines(name@, v.deep_view())),
{
    match v {
        None => {
            proof {
                assert(old(out)@ + join_lines(array_attr_lines(name@, None)) =~= old(out)@);
            }
        },
        Some(es) => {
            emit_key_line(out, name);
            extend_chars(out, "    ");
            push_line(out, "<array>");
            emit_array_elems(out, es);
            extend_chars(out, "    ");
            push_line(out, "</array>");
            push_line(out, "    ");
            proof {
                lemma_array_block_join(name@, key_line(name@), es.deep_view());
                assert(v.deep_view() == Some(es.deep_view()));
                assert(out@ =~= old(out)@ + join_lines(array_attr_lines(name@, v.deep_view())));
            }
        },
    }
}

/// How the lines of an array block concatenate.
proof fn lemma_array_block_join(name: Seq<char>, kl: Seq<char>, es: Seq<Seq<char>>)
    requires
        kl == key_line(name),
    ensures
        join_lines(
            seq![kl, array_open_line()] + array_elem_lines(es) + seq![
                array_close_line(),
                blank_line(),
            ],
        ) == kl + seq!['\n'] + (array_open_line() + seq!['\n']) + join_lines(array_elem_lines(es))
            + (array_close_line() + seq!['\n']) + (blank_line() + seq!['\n']),
{
    let open2 = seq![kl, array_open_line()];
    let close2 = seq![array_close_line(), blank_line()];
    let mid = array_elem_lines(es);
    lemma_join_append(open2 + mid, close2);
    lemma_join_append(open2, mid);
    assert((open2 + mid) + close2 =~= open2 + mid + close2);
    lemma_join2(kl, array_open_line());
    lemma_join2(array_close_line(), blank_line());
    assert(join_lines(open2 + mid + close2) =~= kl + seq!['\n'] + (array_open_line() + seq!['\n'])
        + join_lines(mid) + (array_close_line() + seq!['\n']) + (blank_line() + seq!['\n']));
}

/// Appends the lines of the session-type attribute, nothing when absent.
fn emit_session_attr(
    out: &mut Vec<char>,
    v: &Option<crate::model::LimitLoadToSessionType>,
)
    ensures
        final(out)@ == old(out)@ + join_lines(
            session_attr_lines(
                match v {
                    Some(s) => Some(s@),
                    None => None,
                },
            ),
        ),
{
    match v {
        None => {
            proof {
                assert(old(out)@ + join_lines(session_attr_lines(None)) =~= old(out)@);
            }
        },
        Some(crate::model::LimitLoadToSessionType::Single(s)) => {
            emit_key_line(out, "LimitLoadToSessionType");
            extend_chars(out, "    ");
            extend_chars(out, "<string>");
            extend_chars(out, s.as_str());
            extend_chars(out, "</string>");
            out.push('\n');
            push_line(out, "    ");
            proof {
                lemma_join3(
                    key_line("LimitLoadToSessionType"@),
                    string_value_line(s@),
                    blank_line(),
                );
                assert(out@ =~= old(out)@ + join_lines(
                    session_attr_lines(Some(SessionTypeView::Single(s@))),
                ));
            }
        },
        Some(crate::model::LimitLoadToSessionType::Multiple(es)) => {
            emit_key_line(out, "LimitLoadToSessionType");
            extend_chars(out, "    ");
            push_line(out, "<array>");
            emit_array_elems(out, es);
            extend_chars(out, "    ");
            push_line(out, "</array>");
            push_line(out, "    ");
            proof {
                lemma_array_block_join(
                    "LimitLoadToSessionType"@,
                    key_line("LimitLoadToSessionType"@),
                    es.deep_view(),
                );
                assert(out@ =~= old(out)@ + join_lines(
                    session_attr_lines(Some(SessionTypeView::Multiple(es.deep_view()))),
                ));
            }
        },
    }
}

/// Appends the lines of the environment-variables attribute.
fn emit_env_attr(out: &mut Vec<char>, v: &Option<Vec<(String, String)>>)
    ensures
        final(out)@ == old(out)@ + join_lines(env_attr_lines(v.deep_view())),
{
    match v {
        None => {
            proof {
                assert(old(out)@ + join_lines(env_attr_lines(None)) =~= old(out)@);
            }
        },
        Some(ps) => {
            emit_key_line(out, "EnvironmentVariables");
            extend_chars(out, "    ");
            push_line(out, "<dict>");
            let mut i: usize = 0;
            let ghost base = out@;
            proof {
                assert(env_pair_lines(ps.deep_view().take(0)) =~= Seq::<Seq<char>>::empty());
                assert(out@ =~= base + join_lines(env_pair_lines(ps.deep_view().take(0))));
            }
            while i < ps.len()
                invariant
                    i <= ps@.len(),
                    ps@.len() == ps.deep_view().len(),
                    out@ == base + join_lines(env_pair_lines(ps.deep_view().take(i as int))),
                decreases ps@.len() - i,
            {
                extend_chars(out, "        ");
                extend_chars(out, "<key>");
                extend_chars(out, ps[i].0.as_str());
                extend_chars(out, "</key>");
                out.push('\n');
                extend_chars(out, "        ");
                extend_chars(out, "<string>");
                extend_chars(out, ps[i].1.as_str());
                extend_chars(out, "</string>");
                out.push('\n');
                proof {
                    let dv = ps.deep_view();
                    assert(dv[i as int] == (ps@[i as int].0@, ps@[i as int].1@));
                    let pre = env_pair_lines(dv.take(i as int));
                    assert(dv.take(i + 1) =~= dv.take(i as int).push(dv[i as int]));
                    lemma_env_pair_lines_push(dv.take(i as int), dv[i as int]);
                    let two = seq![
                        env_key_line(dv[i as int].0),
                        env_value_line(dv[i as int].1),
                    ];
                    lemma_join_append(pre, two);
                    assert(two.drop_first() =~= seq![env_value_line(dv[i as int].1)]);
                    lemma_join1(env_value_line(dv[i as int].1));
                    assert(out@ =~= base + join_lines(env_pair_lines(dv.take(i + 1))));
                }
                i = i + 1;
            }
            proof {
                assert(ps.deep_view().take(ps@.len() as int) =~= ps.deep_view());
            }
            extend_chars(out, "    ");
            push_line(out, "</dict>");
            push_line(out, "    ");
            proof {
                let dv = ps.deep_view();
                let open2 = seq![key_line("EnvironmentVariables"@), dict_open_line()];
                let close2 = seq![dict_close_line(), blank_line()];
                let mid = env_pair_lines(dv);
                lemma_join_append(open2 + mid, close2);
                lemma_join_append(open2, mid);
                assert((open2 + mid) + close2 =~= open2 + mid + close2);
                lemma_join2(key_line("EnvironmentVariables"@), dict_open_line());
                lemma_join2(dict_close_line(), blank_line());
                assert(out@ =~= old(out)@ + join_lines(env_attr_lines(v.deep_view())));
            }
        },
    }
}

/// Renders a document into descriptor text: the fixed frame around every
/// present attribute, in canonical key order, absent attributes omitted.
#[verifier::rlimit(100)]
pub fn plist_to_xml(plist: &PlistData) -> (r: String)
    ensures
        r@ == spec_encode(plist@),
{
    let mut out: Vec<char> = Vec::new();
    let ghost mut done: Seq<Seq<char>> = Seq::empty();
    push_line(&mut out, "<?xml version=\"1.0\" encoding=\"UTF-8\"?>");
    push_line(
        &mut out,
        "<!DOCTYPE plist PUBLIC \"-//Apple//DTD PLIST 1.0//EN\" \"http://www.apple.com/DTDs/PropertyList-1.0.dtd\">",
    );
    push_line(&mut out, "<plist version=\"1.0\">");
    push_line(&mut out, "<dict>");
    proof {
        done = header_lines();
        lemma_join4(
            "<?xml version=\"1.0\" encoding=\"UTF-8\"?>"@,
            "<!DOCTYPE plist PUBLIC \"-//Apple//DTD PLIST 1.0//EN\" \"http://www.apple.com/DTDs/PropertyList-1.0.dtd\">"@,
            "<plist version=\"1.0\">"@,
            "<dict>"@,
        );
        assert(out@ =~= join_lines(done));
    }
    emit_string_attr(&mut out, "Label", &plist.label);
    proof {
        lemma_join_append(done, string_attr_lines("Label"@, plist@.label));
        done = done + string_attr_lines("Label"@, plist@.label);
    }
    emit_array_attr(&mut out, "ProgramArguments", &plist.program_arguments);
    proof {
        lemma_join_append(done, array_attr_lines("ProgramArguments"@, plist@.program_arguments));
        done = done + array_attr_lines("ProgramArguments"@, plist@.program_arguments);
    }
    emit_int_attr(&mut out, "StartInterval", &plist.start_interval);
    proof {
        lemma_join_append(done, int_attr_lines("StartInterval"@, plist@.start_interval));
        done = done + int_attr_lines("StartInterval"@, plist@.start_interval);
    }
    emit_bool_attr(&mut out, "RunAtLoad", &plist.run_at_load);
    proof {
        lemma_join_append(done, bool_attr_lines("RunAtLoad"@, plist@.run_at_load));
        done = done + bool_attr_lines("RunAtLoad"@, plist@.run_at_load);
    }
    emit_bool_attr(&mut out, "KeepAlive", &plist.keep_alive);
    proof {
        lemma_join_append(done, bool_attr_lines("KeepAlive"@, plist@.keep_alive));
        done = done + bool_attr_lines("KeepAlive"@, plist@.keep_alive);
    }
    emit_string_attr(&mut out, "StandardOutPath", &plist.standard_out_path);
    proof {
        lemma_join_append(done, string_attr_lines("StandardOutPath"@, plist@.standard_out_path));
        done = done + string_attr_lines("StandardOutPath"@, plist@.standard_out_path);
    }
    emit_string_attr(&mut out, "StandardErrorPath", &plist.standard_error_path);
    proof {
        lemma_join_append(
            done,
            string_attr_lines("StandardErrorPath"@, plist@.standard_error_path),
        );
        done = done + string_attr_lines("StandardErrorPath"@, plist@.standard_error_path);
    }
    emit_string_attr(&mut out, "WorkingDirectory", &plist.working_directory);
    proof {
        lemma_join_append(done, string_attr_lines("WorkingDirectory"@, plist@.working_directory));
        done = done + string_attr_lines("WorkingDirectory"@, plist@.working_directory);
    }
    emit_string_attr(&mut out, "Program", &plist.program);
    proof {
        lemma_join_append(done, string_attr_lines("Program"@, plist@.program));
        done = done + string_attr_lines("Program"@, plist@.program);
    }
    emit_int_attr(&mut out, "ThrottleInterval", &plist.throttle_interval);
    proof {
        lemma_join_append(done, int_attr_lines("ThrottleInterval"@, plist@.throttle_interval));
        done = done + int_attr_lines("ThrottleInterval"@, plist@.throttle_interval);
    }
    emit_bool_attr(&mut out, "AbandonProcessGroup", &plist.abandon_process_group);
    proof {
        lemma_join_append(
            done,
            bool_attr_lines("AbandonProcessGroup"@, plist@.abandon_process_group),
        );
        done = done + bool_attr_lines("AbandonProcessGroup"@, plist@.abandon_process_group);
    }
    emit_bool_attr(&mut out, "EnablePressuredExit", &plist.enable_pressured_exit);
    proof {
        lemma_join_append(
            done,
            bool_attr_lines("EnablePressuredExit"@, plist@.enable_pressured_exit),
        );
        done = done + bool_attr_lines("EnablePressuredExit"@, plist@.enable_pressured_exit);
    }
    emit_bool_attr(&mut out, "EnableTransactions", &plist.enable_transactions);
    proof {
        lemma_join_append(done, bool_attr_lines("EnableTransactions"@, plist@.enable_transactions));
        done = done + bool_attr_lines("EnableTransactions"@, plist@.enable_transactions);
    }
    emit_bool_attr(&mut out, "EventMonitor", &plist.event_monitor);
    proof {
        lemma_join_append(done, bool_attr_lines("EventMonitor"@, plist@.event_monitor));
        done = done + bool_attr_lines("EventMonitor"@, plist@.event_monitor);
    }
    emit_string_attr(&mut out, "POSIXSpawnType", &plist.posix_spawn_type);
    proof {
        lemma_join_append(done, string_attr_lines("POSIXSpawnType"@, plist@.posix_spawn_type));
        done = done + string_attr_lines("POSIXSpawnType"@, plist@.posix_spawn_type);
    }
    emit_array_attr(&mut out, "AssociatedBundleIdentifiers", &plist.associated_bundle_identifiers);
    proof {
        lemma_join_append(
            done,
            array_attr_lines("AssociatedBundleIdentifiers"@, plist@.associated_bundle_identifiers),
        );
        done = done + array_attr_lines(
            "AssociatedBundleIdentifiers"@,
            plist@.associated_bundle_identifiers,
        );
    }
    emit_session_attr(&mut out, &plist.limit_load_to_session_type);
    proof {
        lemma_join_append(done, session_attr_lines(plist@.limit_load_to_session_type));
        done = done + session_attr_lines(plist@.limit_load_to_session_type);
    }
    emit_env_attr(&mut out, &plist.environment_variables);
    proof {
        lemma_join_append(done, env_attr_lines(plist@.environment_variables));
        done = done + env_attr_lines(plist@.environment_variables);
    }
    push_line(&mut out, "</dict>");
    push_line(&mut out, "</plist>");
    proof {
        lemma_join_append(done, footer_lines());
        lemma_join2("</dict>"@, "</plist>"@);
        assert(out@ =~= join_lines(done + footer_lines()));
        done = done + footer_lines();
        assert(done == spec_encode_lines(plist@));
    }
    chars_to_string(&out)
}

} // verus!

//! The field catalog: the fixed, ordered list of editable fields, each with
//! its kind, its display name, and the two kind-specific conversions — from
//! a document attribute to an edit-buffer seed, and from a committed buffer
//! back to a typed attribute.

use vstd::prelude::*;
use crate::model::{PlistData, PlistView, SessionTypeView, LimitLoadToSessionType};
use crate::text::{
    chars_eq_str, chars_to_string, copy_range, extend_chars, extend_vec, find_char, first_occ,
    i32_chars, parse_i32_chars, spec_i32_chars, spec_lines, spec_parse_i32, spec_trim, split_lines,
    str_chars, trim_chars,
};
use crate::decode::{env_upsert, env_upsert_exec};

verus! {

/// One editable field of the form, in catalog order.
#[derive(Debug, Clone, Copy, PartialEq, Eq, Structural)]
pub enum FormField {
    Label,
    ProgramArguments,
    Program,
    StartInterval,
    RunAtLoad,
    KeepAlive,
    StandardOutPath,
    StandardErrorPath,
    WorkingDirectory,
    EnvironmentVariables,
    LimitLoadToSessionType,
    AbandonProcessGroup,
    AssociatedBundleIdentifiers,
    ThrottleInterval,
    POSIXSpawnType,
    EnablePressuredExit,
    EnableTransactions,
    EventMonitor,
}

/// The field one step down the form, with wraparound.
pub open spec fn spec_next_field(f: FormField) -> FormField {
    match f {
        FormField::Label => FormField::Program,
        FormField::Program => FormField::ProgramArguments,
        FormField::ProgramArguments => FormField::StartInterval,
        FormField::StartInterval => FormField::ThrottleInterval,
        FormField::ThrottleInterval => FormField::RunAtLoad,
        FormField::RunAtLoad => FormField::KeepAlive,
        FormField::KeepAlive => FormField::AbandonProcessGroup,
        FormField::AbandonProcessGroup => FormField::StandardOutPath,
        FormField::StandardOutPath => FormField::StandardErrorPath,
        FormField::StandardErrorPath => FormField::WorkingDirectory,
        FormField::WorkingDirectory => FormField::POSIXSpawnType,
        FormField::POSIXSpawnType => FormField::EnablePressuredExit,
        FormField::EnablePressuredExit => FormField::EnableTransactions,
        FormField::EnableTransactions => FormField::EventMonitor,
        FormField::EventMonitor => FormField::LimitLoadToSessionType,
        FormField::LimitLoadToSessionType => FormField::AssociatedBundleIdentifiers,
        FormField::AssociatedBundleIdentifiers => FormField::EnvironmentVariables,
        FormField::EnvironmentVariables => FormField::Label,
    }
}

/// The field one step up the form, with wraparound.
pub open spec fn spec_prev_field(f: FormField) -> FormField {
    match f {
        FormField::Label => FormField::EnvironmentVariables,
        FormField::Program => FormField::Label,
        FormField::ProgramArguments => FormField::Program,
        FormField::StartInterval => FormField::ProgramArguments,
        FormField::ThrottleInterval => FormField::StartInterval,
        FormField::RunAtLoad => FormField::ThrottleInterval,
        FormField::KeepAlive => FormField::RunAtLoad,
        FormField::AbandonProcessGroup => FormField::KeepAlive,
        FormField::StandardOutPath => FormField::AbandonProcessGroup,
        FormField::StandardErrorPath => FormField::StandardOutPath,
        FormField::WorkingDirectory => FormField::StandardErrorPath,
        FormField::POSIXSpawnType => FormField::WorkingDirectory,
        FormField::EnablePressuredExit => FormField::POSIXSpawnType,
        FormField::EnableTransactions => FormField::EnablePressuredExit,
        FormField::EventMonitor => FormField::EnableTransactions,
        FormField::LimitLoadToSessionType => FormField::EventMonitor,
        FormField::AssociatedBundleIdentifiers => FormField::LimitLoadToSessionType,
        FormField::EnvironmentVariables => FormField::AssociatedBundleIdentifiers,
    }
}

pub fn next_field(f: FormField) -> (r: FormField)
    ensures
        r == spec_next_field(f),
{
    match f {
        FormField::Label => FormField::Program,
        FormField::Program => FormField::ProgramArguments,
        FormField::ProgramArguments => FormField::StartInterval,
        FormField::StartInterval => FormField::ThrottleInterval,
        FormField::ThrottleInterval => FormField::RunAtLoad,
        FormField::RunAtLoad => FormField::KeepAlive,
        FormField::KeepAlive => FormField::AbandonProcessGroup,
        FormField::AbandonProcessGroup => FormField::StandardOutPath,
        FormField::StandardOutPath => FormField::StandardErrorPath,
        FormField::StandardErrorPath => FormField::WorkingDirectory,
        FormField::WorkingDirectory => FormField::POSIXSpawnType,
        FormField::POSIXSpawnType => FormField::EnablePressuredExit,
        FormField::EnablePressuredExit => FormField::EnableTransactions,
        FormField::EnableTransactions => FormField::EventMonitor,
        FormField::EventMonitor => FormField::LimitLoadToSessionType,
        FormField::LimitLoadToSessionType => FormField::AssociatedBundleIdentifiers,
        FormField::AssociatedBundleIdentifiers => FormField::EnvironmentVariables,
        FormField::EnvironmentVariables => FormField::Label,
    }
}

pub fn prev_field(f: FormField) -> (r: FormField)
    ensures
        r == spec_prev_field(f),
{
    match f {
        FormField::Label => FormField::EnvironmentVariables,
        FormField::Program => FormField::Label,
        FormField::ProgramArguments => FormField::Program,
        FormField::StartInterval => FormField::ProgramArguments,
        FormField::ThrottleInterval => FormField::StartInterval,
        FormField::RunAtLoad => FormField::ThrottleInterval,
        FormField::KeepAlive => FormField::RunAtLoad,
        FormField::AbandonProcessGroup => FormField::KeepAlive,
        FormField::StandardOutPath => FormField::AbandonProcessGroup,
        FormField::StandardErrorPath => FormField::StandardOutPath,
        FormField::WorkingDirectory => FormField::StandardErrorPath,
        FormField::POSIXSpawnType => FormField::WorkingDirectory,
        FormField::EnablePressuredExit => FormField::POSIXSpawnType,
        FormField::EnableTransactions => FormField::EnablePressuredExit,
        FormField::EventMonitor => FormField::EnableTransactions,
        FormField::LimitLoadToSessionType => FormField::EventMonitor,
        FormField::AssociatedBundleIdentifiers => FormField::LimitLoadToSessionType,
        FormField::EnvironmentVariables => FormField::AssociatedBundleIdentifiers,
    }
}

/// The display name of a field.
pub open spec fn spec_field_name(f: FormField) -> Seq<char> {
    match f {
        FormField::Label => "Label"@,
        FormField::ProgramArguments => "Program Arguments"@,
        FormField::Program => "Program"@,
        FormField::StartInterval => "Start Interval"@,
        FormField::RunAtLoad => "Run At Load"@,
        FormField::KeepAlive => "Keep Alive"@,
        FormField::StandardOutPath => "Standard Out Path"@,
        FormField::StandardErrorPath => "Standard Error Path"@,
        FormField::WorkingDirectory => "Working Directory"@,
        FormField::EnvironmentVariables => "Environment Variables"@,
        FormField::LimitLoadToSessionType => "Limit Load To Session Type"@,
        FormField::AbandonProcessGroup => "Abandon Process Group"@,
        FormField::AssociatedBundleIdentifiers => "Associated Bundle Identifiers"@,
        FormField::ThrottleInterval => "Throttle Interval"@,
        FormField::POSIXSpawnType => "POSIX Spawn Type"@,
        FormField::EnablePressuredExit => "Enable Pressured Exit"@,
        FormField::EnableTransactions => "Enable Transactions"@,
        FormField::EventMonitor => "Event Monitor"@,
    }
}

pub fn field_name(f: FormField) -> (r: &'static str)
    ensures
        r@ == spec_field_name(f),
{
    match f {
        FormField::Label => "Label",
        FormField::ProgramArguments => "Program Arguments",
        FormField::Program => "Program",
        FormField::StartInterval => "Start Interval",
        FormField::RunAtLoad => "Run At Load",
        FormField::KeepAlive => "Keep Alive",
        FormField::StandardOutPath => "Standard Out Path",
        FormField::StandardErrorPath => "Standard Error Path",
        FormField::WorkingDirectory => "Working Directory",
        FormField::EnvironmentVariables => "Environment Variables",
        FormField::LimitLoadToSessionType => "Limit Load To Session Type",
        FormField::AbandonProcessGroup => "Abandon Process Group",
        FormField::AssociatedBundleIdentifiers => "Associated Bundle Identifiers",
        FormField::ThrottleInterval => "Throttle Interval",
        FormField::POSIXSpawnType => "POSIX Spawn Type",
        FormField::EnablePressuredExit => "Enable Pressured Exit",
        FormField::EnableTransactions => "Enable Transactions",
        FormField::EventMonitor => "Event Monitor",
    }
}

/// The approximate line of a field in the rendered form.
pub open spec fn field_position(f: FormField) -> int {
    match f {
        FormField::Label => 0,
        FormField::Program => 3,
        FormField::ProgramArguments => 6,
        FormField::StartInterval => 9,
        FormField::ThrottleInterval => 12,
        FormField::RunAtLoad => 15,
        FormField::KeepAlive => 18,
        FormField::AbandonProcessGroup => 21,
        FormField::StandardOutPath => 24,
        FormField::StandardErrorPath => 27,
        FormField::WorkingDirectory => 30,
        FormField::POSIXSpawnType => 33,
        FormField::EnablePressuredExit => 36,
        FormField::EnableTransactions => 39,
        FormField::EventMonitor => 42,
        FormField::LimitLoadToSessionType => 45,
        FormField::AssociatedBundleIdentifiers => 50,
        FormField::EnvironmentVariables => 55,
    }
}

/// The scroll offset that keeps a field visible: scroll up when the field
/// lies above the padded viewport, down when it lies below.
pub open spec fn spec_scroll(f: FormField, off: u16) -> int {
    let pos = field_position(f);
    if pos < off + 3 {
        if pos >= 3 {
            pos - 3
        } else {
            0
        }
    } else if pos > off + 17 {
        pos - 17
    } else {
        off as int
    }
}

pub fn scroll_offset_for_field(f: FormField, off: u16) -> (r: u16)
    ensures
        r as int == spec_scroll(f, off),
{
    let pos: u16 = match f {
        FormField::Label => 0,
        FormField::Program => 3,
        FormField::ProgramArguments => 6,
        FormField::StartInterval => 9,
        FormField::ThrottleInterval => 12,
        FormField::RunAtLoad => 15,
        FormField::KeepAlive => 18,
        FormField::AbandonProcessGroup => 21,
        FormField::StandardOutPath => 24,
        FormField::StandardErrorPath => 27,
        FormField::WorkingDirectory => 30,
        FormField::POSIXSpawnType => 33,
        FormField::EnablePressuredExit => 36,
        FormField::EnableTransactions => 39,
        FormField::EventMonitor => 42,
        FormField::LimitLoadToSessionType => 45,
        FormField::AssociatedBundleIdentifiers => 50,
        FormField::EnvironmentVariables => 55,
    };
    if (pos as u32) < off as u32 + 3 {
        if pos >= 3 {
            pos - 3
        } else {
            0
        }
    } else if pos as u32 > off as u32 + 17 {
        pos - 17
    } else {
        off
    }
}

/// The elements joined by newlines, with no newline after the last.
pub open spec fn join_sep(ls: Seq<Seq<char>>) -> Seq<char>
    decreases ls.len(),
{
    if ls.len() == 0 {
        Seq::empty()
    } else if ls.len() == 1 {
        ls[0]
    } else {
        ls[0] + seq!['\n'] + join_sep(ls.drop_first())
    }
}

pub proof fn lemma_join_sep_push(ls: Seq<Seq<char>>, x: Seq<char>)
    ensures
        join_sep(ls.push(x)) == if ls.len() == 0 {
            x
        } else {
            join_sep(ls) + seq!['\n'] + x
        },
    decreases ls.len(),
{
    if ls.len() == 0 {
        assert(ls.push(x)[0] == x);
    } else if ls.len() == 1 {
        assert(ls.push(x)[0] == ls[0]);
        assert(ls.push(x).drop_first() =~= seq![x]);
        assert(join_sep(seq![x]) == x);
        assert(join_sep(ls) == ls[0]);
    } else {
        assert(ls.push(x)[0] == ls[0]);
        assert(ls.push(x).drop_first() =~= ls.drop_first().push(x));
        lemma_join_sep_push(ls.drop_first(), x);
        assert(ls[0] + seq!['\n'] + (join_sep(ls.drop_first()) + seq!['\n'] + x) =~= (ls[0]
            + seq!['\n'] + join_sep(ls.drop_first())) + seq!['\n'] + x);
    }
}

/// Appends the elements joined by newlines.
fn extend_joined(out: &mut Vec<char>, es: &Vec<String>)
    ensures
        final(out)@ == old(out)@ + join_sep(es.deep_view()),
{
    let mut i: usize = 0;
    proof {
        assert(es.deep_view().take(0) =~= Seq::<Seq<char>>::empty());
        assert(out@ =~= old(out)@ + join_sep(es.deep_view().take(0)));
    }
    while i < es.len()
        invariant
            i <= es@.len(),
            es@.len() == es.deep_view().len(),
            out@ == old(out)@ + join_sep(es.deep_view().take(i as int)),
        decreases es@.len() - i,
    {
        if i > 0 {
            out.push('\n');
        }
        extend_chars(out, es[i].as_str());
        proof {
            let dv = es.deep_view();
            assert(dv.take(i + 1) =~= dv.take(i as int).push(dv[i as int]));
            lemma_join_sep_push(dv.take(i as int), dv[i as int]);
            assert(dv[i as int] == es@[i as int]@);
            assert(out@ =~= old(out)@ + join_sep(dv.take(i + 1)));
        }
        i = i + 1;
    }
    proof {
        assert(es.deep_view().take(es@.len() as int) =~= es.deep_view());
    }
}

/// One `key=value` seed line per mapping entry.
pub open spec fn env_seed_lines(ps: Seq<(Seq<char>, Seq<char>)>) -> Seq<Seq<char>> {
    ps.map_values(|p: (Seq<char>, Seq<char>)| p.0 + seq!['='] + p.1)
}

/// Appends the mapping entries as `key=value` lines joined by newlines.
fn extend_env_joined(out: &mut Vec<char>, ps: &Vec<(String, String)>)
    ensures
        final(out)@ == old(out)@ + join_sep(env_seed_lines(ps.deep_view())),
{
    let mut i: usize = 0;
    proof {
        assert(env_seed_lines(ps.deep_view()).take(0) =~= Seq::<Seq<char>>::empty());
        assert(out@ =~= old(out)@ + join_sep(env_seed_lines(ps.deep_view()).take(0)));
    }
    while i < ps.len()
        invariant
            i <= ps@.len(),
            ps@.len() == env_seed_lines(ps.deep_view()).len(),
            out@ == old(out)@ + join_sep(env_seed_lines(ps.deep_view()).take(i as int)),
        decreases ps@.len() - i,
    {
        if i > 0 {
            out.push('\n');
        }
        extend_chars(out, ps[i].0.as_str());
        out.push('=');
        extend_chars(out, ps[i].1.as_str());
        proof {
            let m = env_seed_lines(ps.deep_view());
            assert(m.take(i + 1) =~= m.take(i as int).push(m[i as int]));
            lemma_join_sep_push(m.take(i as int), m[i as int]);
            assert(m[i as int] == ps@[i as int].0@ + seq!['='] + ps@[i as int].1@);
            assert(out@ =~= old(out)@ + join_sep(m.take(i + 1)));
        }
        i = i + 1;
    }
    proof {
        assert(env_seed_lines(ps.deep_view()).take(ps@.len() as int) =~= env_seed_lines(
            ps.deep_view(),
        ));
    }
}

pub open spec fn opt_text(o: Option<Seq<char>>) -> Seq<char> {
    match o {
        Some(s) => s,
        None => Seq::empty(),
    }
}

/// The edit-buffer seed for a field: the kind-specific rendering of the
/// field's current value, empty when the attribute is absent. A boolean
/// seeds as the literal `true` or `false`, an absent boolean as `false`.
pub open spec fn spec_seed(d: PlistView, f: FormField) -> Seq<char> {
    match f {
        FormField::Label => opt_text(d.label),
        FormField::Program => opt_text(d.program),
        FormField::StandardOutPath => opt_text(d.standard_out_path),
        FormField::StandardErrorPath => opt_text(d.standard_error_path),
        FormField::WorkingDirectory => opt_text(d.working_directory),
        FormField::POSIXSpawnType => opt_text(d.posix_spawn_type),
        FormField::StartInterval => match d.start_interval {
            Some(n) => spec_i32_chars(n as int),
            None => Seq::empty(),
        },
        FormField::ThrottleInterval => match d.throttle_interval {
            Some(n) => spec_i32_chars(n as int),
            None => Seq::empty(),
        },
        FormField::RunAtLoad => bool_seed(d.run_at_load),
        FormField::KeepAlive => bool_seed(d.keep_alive),
        FormField::AbandonProcessGroup => bool_seed(d.abandon_process_group),
        FormField::EnablePressuredExit => bool_seed(d.enable_pressured_exit),
        FormField::EnableTransactions => bool_seed(d.enable_transactions),
        FormField::EventMonitor => bool_seed(d.event_monitor),
        FormField::ProgramArguments => match d.program_arguments {
            Some(es) => join_sep(es),
            None => Seq::empty(),
        },
        FormField::AssociatedBundleIdentifiers => match d.associated_bundle_identifiers {
            Some(es) => join_sep(es),
            None => Seq::empty(),
        },
        FormField::LimitLoadToSessionType => match d.limit_load_to_session_type {
            Some(SessionTypeView::Single(s)) => s,
            Some(SessionTypeView::Multiple(es)) => join_sep(es),
            None => Seq::empty(),
        },
        FormField::EnvironmentVariables => match d.environment_variables {
            Some(ps) => join_sep(env_seed_lines(ps)),
            None => Seq::empty(),
        },
    }
}

pub open spec fn bool_seed(o: Option<bool>) -> Seq<char> {
    if o == Some(true) {
        "true"@
    } else {
        "false"@
    }
}

fn extend_opt(out: &mut Vec<char>, v: &Option<String>)
    ensures
        final(out)@ == old(out)@ + opt_text(v.deep_view()),
{
    match v {
        Some(s) => {
            extend_chars(out, s.as_str());
        },
        None => {
            proof {
                assert(out@ =~= old(out)@ + opt_text(None));
            }
        },
    }
}

fn extend_bool(out: &mut Vec<char>, v: &Option<bool>)
    ensures
        final(out)@ == old(out)@ + bool_seed(*v),
{
    match v {
        Some(true) => {
            extend_chars(out, "true");
        },
        _ => {
            extend_chars(out, "false");
        },
    }
}

/// Renders the current value of a field into an edit buffer.
pub fn seed_buffer(plist: &PlistData, f: FormField) -> (r: String)
    ensures
        r@ == spec_seed(plist@, f),
{
    let mut out: Vec<char> = Vec::new();
    match f {
        FormField::Label => extend_opt(&mut out, &plist.label),
        FormField::Program => extend_opt(&mut out, &plist.program),
        FormField::StandardOutPath => extend_opt(&mut out, &plist.standard_out_path),
        FormField::StandardErrorPath => extend_opt(&mut out, &plist.standard_error_path),
        FormField::WorkingDirectory => extend_opt(&mut out, &plist.working_directory),
        FormField::POSIXSpawnType => extend_opt(&mut out, &plist.posix_spawn_type),
        FormField::StartInterval => {
            match &plist.start_interval {
                Some(n) => {
                    let digits = i32_chars(*n);
                    extend_vec(&mut out, &digits);
                },
                None => {},
            }
        },
        FormField::ThrottleInterval => {
            match &plist.throttle_interval {
                Some(n) => {
                    let digits = i32_chars(*n);
                    extend_vec(&mut out, &digits);
                },
                None => {},
            }
        },
        FormField::RunAtLoad => extend_bool(&mut out, &plist.run_at_load),
        FormField::KeepAlive => extend_bool(&mut out, &plist.keep_alive),
        FormField::AbandonProcessGroup => extend_bool(&mut out, &plist.abandon_process_group),
        FormField::EnablePressuredExit => extend_bool(&mut out, &plist.enable_pressured_exit),
        FormField::EnableTransactions => extend_bool(&mut out, &plist.enable_transactions),
        FormField::EventMonitor => extend_bool(&mut out, &plist.event_monitor),
        FormField::ProgramArguments => {
            match &plist.program_arguments {
                Some(es) => extend_joined(&mut out, es),
                None => {},
            }
        },
        FormField::AssociatedBundleIdentifiers => {
            match &plist.associated_bundle_identifiers {
                Some(es) => extend_joined(&mut out, es),
                None => {},
            }
        },
        FormField::LimitLoadToSessionType => {
            match &plist.limit_load_to_session_type {
                Some(LimitLoadToSessionType::Single(s)) => {
                    extend_chars(&mut out, s.as_str());
                },
                Some(LimitLoadToSessionType::Multiple(es)) => extend_joined(&mut out, es),
                None => {},
            }
        },
        FormField::EnvironmentVariables => {
            match &plist.environment_variables {
                Some(ps) => extend_env_joined(&mut out, ps),
                None => {},
            }
        },
    }
    proof {
        assert(out@ =~= spec_seed(plist@, f));
    }
    chars_to_string(&out)
}

/// The trimmed, non-blank members of a line sequence, in order.
pub open spec fn nonblank_of(ls: Seq<Seq<char>>) -> Seq<Seq<char>>
    decreases ls.len(),
{
    if ls.len() == 0 {
        Seq::empty()
    } else {
        let t = spec_trim(ls[0]);
        if t.len() > 0 {
            seq![t] + nonblank_of(ls.drop_first())
        } else {
            nonblank_of(ls.drop_first())
        }
    }
}

pub proof fn lemma_nonblank_push(ls: Seq<Seq<char>>, x: Seq<char>)
    ensures
        nonblank_of(ls.push(x)) == if spec_trim(x).len() > 0 {
            nonblank_of(ls).push(spec_trim(x))
        } else {
            nonblank_of(ls)
        },
    decreases ls.len(),
{
    if ls.len() == 0 {
        assert(ls.push(x)[0] == x);
        assert(ls.push(x).drop_first() =~= Seq::<Seq<char>>::empty());
        assert(nonblank_of(Seq::<Seq<char>>::empty()) == Seq::<Seq<char>>::empty());
        if spec_trim(x).len() > 0 {
            assert(seq![spec_trim(x)] + Seq::<Seq<char>>::empty() =~= nonblank_of(
                ls,
            ).push(spec_trim(x)));
        }
    } else {
        assert(ls.push(x)[0] == ls[0]);
        assert(ls.push(x).drop_first() =~= ls.drop_first().push(x));
        lemma_nonblank_push(ls.drop_first(), x);
        if spec_trim(x).len() > 0 {
            assert(nonblank_of(ls.push(x)) =~= nonblank_of(ls).push(spec_trim(x)));
        }
    }
}

/// The trimmed, non-blank lines of a buffer, in order.
pub open spec fn nonblank_lines(t: Seq<char>) -> Seq<Seq<char>> {
    nonblank_of(spec_lines(t))
}

/// Collects the trimmed, non-blank lines of a buffer.
fn collect_nonblank(buf: &Vec<char>) -> (r: Vec<String>)
    ensures
        r.deep_view() == nonblank_lines(buf@),
{
    let lines = split_lines(buf);
    let ghost lv = lines.deep_view();
    let mut r: Vec<String> = Vec::new();
    let mut i: usize = 0;
    proof {
        assert(lv.take(0) =~= Seq::<Seq<char>>::empty());
        assert(r.deep_view() =~~= nonblank_of(lv.take(0)));
    }
    while i < lines.len()
        invariant
            i <= lines@.len(),
            lv == lines.deep_view(),
            lv == spec_lines(buf@),
            lv.len() == lines@.len(),
            r.deep_view() == nonblank_of(lv.take(i as int)),
        decreases lines@.len() - i,
    {
        proof {
            assert(lines.deep_view()[i as int] == lines@[i as int]@);
            lemma_nonblank_push(lv.take(i as int), lv[i as int]);
            assert(lv.take(i as int).push(lv[i as int]) =~= lv.take(i + 1));
        }
        let t = trim_chars(&lines[i]);
        let ghost old_dv = r.deep_view();
        if t.len() > 0 {
            r.push(chars_to_string(&t));
            proof {
                assert(r.deep_view() =~~= old_dv.push(t@));
            }
        }
        proof {
            assert(r.deep_view() =~~= nonblank_of(lv.take(i + 1)));
        }
        i = i + 1;
    }
    proof {
        assert(lv.take(lv.len() as int) =~= lv);
    }
    r
}

/// How one buffer line changes the committed mapping: a line with `=` is
/// split at the first `=` into a trimmed key and value, others are dropped.
pub open spec fn env_line_step(
    acc: Seq<(Seq<char>, Seq<char>)>,
    raw: Seq<char>,
) -> Seq<(Seq<char>, Seq<char>)> {
    let lt = spec_trim(raw);
    if lt.len() > 0 && first_occ(lt, '=') < lt.len() {
        let cut = first_occ(lt, '=') as int;
        env_upsert(acc, spec_trim(lt.take(cut)), spec_trim(lt.skip(cut + 1)))
    } else {
        acc
    }
}

/// The mapping a buffer commits, entry by entry.
pub open spec fn env_from_lines(
    acc: Seq<(Seq<char>, Seq<char>)>,
    ls: Seq<Seq<char>>,
) -> Seq<(Seq<char>, Seq<char>)>
    decreases ls.len(),
{
    if ls.len() == 0 {
        acc
    } else {
        env_from_lines(env_line_step(acc, ls[0]), ls.drop_first())
    }
}

pub proof fn lemma_env_from_lines_push(
    acc: Seq<(Seq<char>, Seq<char>)>,
    ls: Seq<Seq<char>>,
    x: Seq<char>,
)
    ensures
        env_from_lines(acc, ls.push(x)) == env_line_step(env_from_lines(acc, ls), x),
    decreases ls.len(),
{
    if ls.len() == 0 {
        assert(ls.push(x)[0] == x);
        assert(ls.push(x).drop_first() =~= Seq::<Seq<char>>::empty());
        assert(env_from_lines(env_line_step(acc, x), Seq::<Seq<char>>::empty()) == env_line_step(
            acc,
            x,
        ));
    } else {
        assert(ls.push(x)[0] == ls[0]);
        assert(ls.push(x).drop_first() =~= ls.drop_first().push(x));
        lemma_env_from_lines_push(env_line_step(acc, ls[0]), ls.drop_first(), x);
    }
}

/// Collects the mapping a buffer commits.
fn collect_env(buf: &Vec<char>) -> (r: Vec<(String, String)>)
    ensures
        r.deep_view() == env_from_lines(Seq::empty(), spec_lines(buf@)),
{
    let lines = split_lines(buf);
    let ghost lv = lines.deep_view();
    let mut r: Vec<(String, String)> = Vec::new();
    let mut i: usize = 0;
    proof {
        assert(lv.take(0) =~= Seq::<Seq<char>>::empty());
        assert(r.deep_view() =~~= env_from_lines(Seq::empty(), lv.take(0)));
    }
    while i < lines.len()
        invariant
            i <= lines@.len(),
            lv == lines.deep_view(),
            lv == spec_lines(buf@),
            lv.len() == lines@.len(),
            r.deep_view() == env_from_lines(Seq::empty(), lv.take(i as int)),
        decreases lines@.len() - i,
    {
        proof {
            assert(lines.deep_view()[i as int] == lines@[i as int]@);
            lemma_env_from_lines_push(Seq::empty(), lv.take(i as int), lv[i as int]);
            assert(lv.take(i as int).push(lv[i as int]) =~= lv.take(i + 1));
        }
        let t = trim_chars(&lines[i]);
        if t.len() > 0 {
            match find_char(&t, '=') {
                Some(cut) => {
                    let kpart = copy_range(&t, 0, cut);
                    let vpart = copy_range(&t, cut + 1, t.len());
                    let k = trim_chars(&kpart);
                    let v = trim_chars(&vpart);
                    proof {
                        assert(kpart@ =~= t@.take(cut as int));
                        assert(vpart@ =~= t@.skip(cut + 1));
                    }
                    env_upsert_exec(&mut r, chars_to_string(&k), chars_to_string(&v));
                },
                None => {},
            }
        }
        proof {
            assert(r.deep_view() =~~= env_from_lines(Seq::empty(), lv.take(i + 1)));
        }
        i = i + 1;
    }
    proof {
        assert(lv.take(lv.len() as int) =~= lv);
    }
    r
}

/// What committing a buffer does to the document, per field kind:
/// - a string field takes the buffer, an empty buffer clearing the attribute;
/// - an integer field takes the parsed value, an unparsable buffer clearing it;
/// - a boolean field becomes true exactly for the literal buffer `true`;
/// - a list field takes the trimmed non-blank lines, none clearing it;
/// - the session field takes one non-blank line as the single variant, more
///   as the multiple variant, and none clears it;
/// - the mapping field takes the `key=value` lines, dropping lines without
///   `=`; an empty result clears it.
pub open spec fn spec_commit(d: PlistView, f: FormField, buf: Seq<char>) -> PlistView {
    match f {
        FormField::Label => PlistView { label: nonempty_opt(buf), ..d },
        FormField::Program => PlistView { program: nonempty_opt(buf), ..d },
        FormField::StandardOutPath => PlistView { standard_out_path: nonempty_opt(buf), ..d },
        FormField::StandardErrorPath => PlistView { standard_error_path: nonempty_opt(buf), ..d },
        FormField::WorkingDirectory => PlistView { working_directory: nonempty_opt(buf), ..d },
        FormField::POSIXSpawnType => PlistView { posix_spawn_type: nonempty_opt(buf), ..d },
        FormField::StartInterval => PlistView { start_interval: spec_parse_i32(buf), ..d },
        FormField::ThrottleInterval => PlistView { throttle_interval: spec_parse_i32(buf), ..d },
        FormField::RunAtLoad => PlistView { run_at_load: Some(buf == "true"@), ..d },
        FormField::KeepAlive => PlistView { keep_alive: Some(buf == "true"@), ..d },
        FormField::AbandonProcessGroup => PlistView {
            abandon_process_group: Some(buf == "true"@),
            ..d
        },
        FormField::EnablePressuredExit => PlistView {
            enable_pressured_exit: Some(buf == "true"@),
            ..d
        },
        FormField::EnableTransactions => PlistView {
            enable_transactions: Some(buf == "true"@),
            ..d
        },
        FormField::EventMonitor => PlistView { event_monitor: Some(buf == "true"@), ..d },
        FormField::ProgramArguments => PlistView {
            program_arguments: nonempty_list(nonblank_lines(buf)),
            ..d
        },
        FormField::AssociatedBundleIdentifiers => PlistView {
            associated_bundle_identifiers: nonempty_list(nonblank_lines(buf)),
            ..d
        },
        FormField::LimitLoadToSessionType => PlistView {
            limit_load_to_session_type: session_commit(nonblank_lines(buf)),
            ..d
        },
        FormField::EnvironmentVariables => PlistView {
            environment_variables: nonempty_env(env_from_lines(Seq::empty(), spec_lines(buf))),
            ..d
        },
    }
}

pub open spec fn nonempty_opt(buf: Seq<char>) -> Option<Seq<char>> {
    if buf.len() > 0 {
        Some(buf)
    } else {
        None
    }
}

pub open spec fn nonempty_list(ls: Seq<Seq<char>>) -> Option<Seq<Seq<char>>> {
    if ls.len() > 0 {
        Some(ls)
    } else {
        None
    }
}

/// Arity chooses the session variant: none clears, one is single, more are
/// multiple, in buffer order.
pub open spec fn session_commit(ls: Seq<Seq<char>>) -> Option<SessionTypeView> {
    if ls.len() == 0 {
        None
    } else if ls.len() == 1 {
        Some(SessionTypeView::Single(ls[0]))
    } else {
        Some(SessionTypeView::Multiple(ls))
    }
}

pub open spec fn nonempty_env(ps: Seq<(Seq<char>, Seq<char>)>) -> Option<
    Seq<(Seq<char>, Seq<char>)>,
> {
    if ps.len() > 0 {
        Some(ps)
    } else {
        None
    }
}

fn commit_string(buf: &Vec<char>) -> (r: Option<String>)
    ensures
        r.deep_view() == nonempty_opt(buf@),
{
    if buf.len() > 0 {
        Some(chars_to_string(buf))
    } else {
        None
    }
}

/// Writes a committed buffer through to the document, per field kind.
pub fn commit_field(plist: &mut PlistData, f: FormField, buf: &str)
    ensures
        final(plist)@ == spec_commit(old(plist)@, f, buf@),
{
    let bc = str_chars(buf);
    match f {
        FormField::Label => {
            plist.label = commit_string(&bc);
        },
        FormField::Program => {
            plist.program = commit_string(&bc);
        },
        FormField::StandardOutPath => {
            plist.standard_out_path = commit_string(&bc);
        },
        FormField::StandardErrorPath => {
            plist.standard_error_path = commit_string(&bc);
        },
        FormField::WorkingDirectory => {
            plist.working_directory = commit_string(&bc);
        },
        FormField::POSIXSpawnType => {
            plist.posix_spawn_type = commit_string(&bc);
        },
        FormField::StartInterval => {
            plist.start_interval = parse_i32_chars(&bc);
        },
        FormField::ThrottleInterval => {
            plist.throttle_interval = parse_i32_chars(&bc);
        },
        FormField::RunAtLoad => {
            plist.run_at_load = Some(chars_eq_str(&bc, "true"));
        },
        FormField::KeepAlive => {
            plist.keep_alive = Some(chars_eq_str(&bc, "true"));
        },
        FormField::AbandonProcessGroup => {
            plist.abandon_process_group = Some(chars_eq_str(&bc, "true"));
        },
        FormField::EnablePressuredExit => {
            plist.enable_pressured_exit = Some(chars_eq_str(&bc, "true"));
        },
        FormField::EnableTransactions => {
            plist.enable_transactions = Some(chars_eq_str(&bc, "true"));
        },
        FormField::EventMonitor => {
            plist.event_monitor = Some(chars_eq_str(&bc, "true"));
        },
        FormField::ProgramArguments => {
            let ls = collect_nonblank(&bc);
            if ls.len() > 0 {
                plist.program_arguments = Some(ls);
            } else {
                plist.program_arguments = None;
            }
        },
        FormField::AssociatedBundleIdentifiers => {
            let ls = collect_nonblank(&bc);
            if ls.len() > 0 {
                plist.associated_bundle_identifiers = Some(ls);
            } else {
                plist.associated_bundle_identifiers = None;
            }
        },
        FormField::LimitLoadToSessionType => {
            let mut ls = collect_nonblank(&bc);
            if ls.len() == 0 {
                plist.limit_load_to_session_type = None;
            } else if ls.len() == 1 {
                let s = ls.remove(0);
                plist.limit_load_to_session_type = Some(LimitLoadToSessionType::Single(s));
                proof {
                    assert(plist@.limit_load_to_session_type == session_commit(
                        nonblank_lines(bc@),
                    ));
                }
            } else {
                plist.limit_load_to_session_type = Some(LimitLoadToSessionType::Multiple(ls));
            }
        },
        FormField::EnvironmentVariables => {
            let ps = collect_env(&bc);
            if ps.len() > 0 {
                plist.environment_variables = Some(ps);
            } else {
                plist.environment_variables = None;
            }
        },
    }
    proof {
        assert(plist@ =~= spec_commit(old(plist)@, f, buf@));
    }
}

} // verus!

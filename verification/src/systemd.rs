//! Systemd service units: reading the table printed by `systemctl
//! list-units` and checking the lifecycle actions that may be requested.
use vstd::prelude::*;

use crate::command::{CommandOutcome, result_chars};
use crate::text;
use crate::text::{chars_of, push_str, string_of};

verus! {

broadcast use vstd::seq_lib::group_seq_properties;

/// Load and activation state of one service unit.
pub struct ServiceInfo {
    /// Unit name, such as `bluetooth.service`.
    pub name: String,
    /// Whether the unit file is loaded (`loaded`, `not-found`, ...).
    pub load_state: String,
    /// High-level activation state (`active`, `inactive`, `failed`, ...).
    pub active_state: String,
    /// Low-level state (`running`, `dead`, `exited`, ...).
    pub sub_state: String,
    /// Short description of the unit.
    pub description: String,
}

pub struct ServiceView {
    pub name: Seq<char>,
    pub load_state: Seq<char>,
    pub active_state: Seq<char>,
    pub sub_state: Seq<char>,
    pub description: Seq<char>,
}

impl View for ServiceInfo {
    type V = ServiceView;

    open spec fn view(&self) -> ServiceView {
        ServiceView {
            name: self.name@,
            load_state: self.load_state@,
            active_state: self.active_state@,
            sub_state: self.sub_state@,
            description: self.description@,
        }
    }
}

pub open spec fn service_views(v: Seq<ServiceInfo>) -> Seq<ServiceView> {
    v.map_values(|s: ServiceInfo| s@)
}

/// Words joined with single spaces (`[&str]::join(" ")`).
pub open spec fn join_spaced(ws: Seq<Seq<char>>) -> Seq<char>
    decreases ws.len(),
{
    if ws.len() == 0 {
        seq![]
    } else if ws.len() == 1 {
        ws[0]
    } else {
        join_spaced(ws.drop_last()) + seq![' '] + ws.last()
    }
}

/// The service described by one line of the table: its first four words are
/// name, load, active and sub state, the remaining words joined by spaces
/// are the description; a line with fewer than four words describes none.
pub open spec fn service_of_line(line: Seq<char>) -> Option<ServiceView> {
    let w = text::words(line);
    if w.len() < 4 {
        None
    } else {
        Some(
            ServiceView {
                name: w[0],
                load_state: w[1],
                active_state: w[2],
                sub_state: w[3],
                description: join_spaced(w.skip(4)),
            },
        )
    }
}

/// The services described by the lines `ls`, in order.
pub open spec fn services_of_lines(ls: Seq<Seq<char>>) -> Seq<ServiceView>
    decreases ls.len(),
{
    if ls.len() == 0 {
        seq![]
    } else {
        let rest = services_of_lines(ls.drop_last());
        match service_of_line(ls.last()) {
            Some(s) => rest.push(s),
            None => rest,
        }
    }
}

fn join_words(ws: &Vec<Vec<char>>, from: usize) -> (r: Vec<char>)
    requires
        from <= ws@.len(),
    ensures
        r@ == join_spaced(text::views(ws@).skip(from as int)),
{
    let ghost all = text::views(ws@);
    let mut out: Vec<char> = Vec::new();
    let mut i: usize = from;
    while i < ws.len()
        invariant
            from <= i <= ws@.len(),
            all == text::views(ws@),
            out@ == join_spaced(all.subrange(from as int, i as int)),
        decreases ws.len() - i,
    {
        let ghost t = all.subrange(from as int, i + 1);
        if i > from {
            out.push(' ');
        }
        let mut j: usize = 0;
        let ghost mid = out@;
        while j < ws[i].len()
            invariant
                i < ws@.len(),
                j <= ws@[i as int]@.len(),
                out@ == mid + ws@[i as int]@.take(j as int),
            decreases ws@[i as int]@.len() - j,
        {
            out.push(ws[i][j]);
            assert(ws@[i as int]@.take(j + 1) == ws@[i as int]@.take(j as int).push(
                ws@[i as int]@[j as int],
            ));
            j = j + 1;
        }
        proof {
            assert(ws@[i as int]@.take(ws@[i as int]@.len() as int) == ws@[i as int]@);
            assert(t.drop_last() == all.subrange(from as int, i as int));
            assert(t.last() == ws@[i as int]@);
            if i == from {
                assert(t.len() == 1);
            }
        }
        i = i + 1;
    }
    assert(all.subrange(from as int, ws@.len() as int) == all.skip(from as int));
    out
}

fn field(ws: &Vec<Vec<char>>, k: usize) -> (r: String)
    requires
        k < ws@.len(),
    ensures
        r@ == ws@[k as int]@,
{
    string_of(&ws[k])
}

/// Reads the output of `systemctl list-units --type=service --all
/// --no-legend --no-pager`: one service per line with at least four
/// whitespace-separated words.
pub fn parse_service_list(output: &str) -> (r: Vec<ServiceInfo>)
    ensures
        service_views(r@) == services_of_lines(text::lines(output@)),
{
    let v = chars_of(output);
    let ls = text::split_lines(&v);
    let ghost lv = text::views(ls@);
    let mut out: Vec<ServiceInfo> = Vec::new();
    let mut i: usize = 0;
    while i < ls.len()
        invariant
            i <= ls@.len(),
            lv == text::views(ls@),
            lv == text::lines(output@),
            service_views(out@) == services_of_lines(lv.take(i as int)),
        decreases ls.len() - i,
    {
        let ghost t = lv.take(i + 1);
        assert(t.drop_last() == lv.take(i as int));
        assert(t.last() == ls@[i as int]@);
        let ws = text::split_ws(&ls[i]);
        if ws.len() >= 4 {
            let description = join_words(&ws, 4);
            let s = ServiceInfo {
                name: field(&ws, 0),
                load_state: field(&ws, 1),
                active_state: field(&ws, 2),
                sub_state: field(&ws, 3),
                description: string_of(&description),
            };
            out.push(s);
            assert(service_views(out@) =~= services_of_lines(t));
        } else {
            assert(service_views(out@) =~= services_of_lines(t));
        }
        i = i + 1;
    }
    assert(lv.take(lv.len() as int) == lv);
    out
}

pub open spec fn services_result(r: Result<Vec<ServiceInfo>, String>) -> Result<
    Seq<ServiceView>,
    Seq<char>,
> {
    match r {
        Ok(v) => Ok(service_views(v@)),
        Err(e) => Err(e@),
    }
}

/// The service list from the outcome of `systemctl list-units --type=service
/// --all --no-legend --no-pager`: the parsed table when it succeeded and wrote
/// nothing to standard error, its error output when it failed or wrote to
/// standard error, and a message with the error when it could not be started.
pub fn list_systemd_services(outcome: CommandOutcome) -> (r: Result<Vec<ServiceInfo>, String>)
    ensures
        services_result(r) == match outcome {
            CommandOutcome::Ran { success, stdout, stderr } => if success && stderr@.len() == 0 {
                Ok(services_of_lines(text::lines(stdout@)))
            } else {
                Err(stderr@)
            },
            CommandOutcome::NotStarted { error } => Err("Failed to execute systemctl: "@ + error@),
        },
{
    match outcome {
        CommandOutcome::Ran { success, stdout, stderr } => {
            if success && chars_of(stderr.as_str()).len() == 0 {
                Ok(parse_service_list(stdout.as_str()))
            } else {
                Err(stderr)
            }
        },
        CommandOutcome::NotStarted { error } => {
            let mut v: Vec<char> = Vec::new();
            push_str(&mut v, "Failed to execute systemctl: ");
            push_str(&mut v, error.as_str());
            Err(string_of(&v))
        },
    }
}

/// The lifecycle actions that may be requested for a service.
pub open spec fn valid_action(action: Seq<char>) -> bool {
    action == "start"@ || action == "stop"@ || action == "restart"@ || action == "enable"@
        || action == "disable"@
}

fn same(a: &str, b: &str) -> (r: bool)
    ensures
        r == (a@ == b@),
{
    text::chars_equal(&chars_of(a), &chars_of(b))
}

/// The arguments given to `pkexec` to run `action` on `service`
/// (`systemctl <action> <service>`), or an error when the action is not one
/// of `start`, `stop`, `restart`, `enable`, `disable`.
pub fn manage_service_command(service: &str, action: &str) -> (r: Result<Vec<String>, String>)
    ensures
        valid_action(action@) ==> (r matches Ok(args) && args@.len() == 3 && args@[0]@
            == "systemctl"@ && args@[1]@ == action@ && args@[2]@ == service@),
        !valid_action(action@) ==> (r matches Err(e) && e@ == "Invalid systemd action requested"@),
{
    if !(same(action, "start") || same(action, "stop") || same(action, "restart") || same(
        action,
        "enable",
    ) || same(action, "disable")) {
        return Err(String::from_str("Invalid systemd action requested"));
    }
    let mut args: Vec<String> = Vec::new();
    args.push(String::from_str("systemctl"));
    args.push(String::from_str(action));
    args.push(String::from_str(service));
    Ok(args)
}

pub open spec fn manage_result_spec(outcome: CommandOutcome) -> Result<(), Seq<char>> {
    match outcome {
        CommandOutcome::Ran { success, stderr, .. } => if success {
            Ok(())
        } else if text::trim(stderr@).len() == 0 {
            Err(
                "Yetkilendirme iptal edildi veya başarısız oldu (Authorization cancelled or failed)"@,
            )
        } else {
            Err(stderr@)
        },
        CommandOutcome::NotStarted { error } => Err("Failed to spawn pkexec: "@ + error@),
    }
}

/// Result of running `pkexec systemctl <action> <service>`: success, or the
/// error output (a fixed message when it is blank, as when authorization was
/// cancelled), or a message with the error that kept it from starting.
pub fn manage_service_result(outcome: CommandOutcome) -> (r: Result<(), String>)
    ensures
        crate::command::unit_result_chars(r) == manage_result_spec(outcome),
{
    match outcome {
        CommandOutcome::Ran { success, stdout: _, stderr } => {
            if success {
                Ok(())
            } else if crate::command::blank(stderr.as_str()) {
                Err(
                    String::from_str(
                        "Yetkilendirme iptal edildi veya başarısız oldu (Authorization cancelled or failed)",
                    ),
                )
            } else {
                Err(stderr)
            }
        },
        CommandOutcome::NotStarted { error } => {
            let mut v: Vec<char> = Vec::new();
            push_str(&mut v, "Failed to spawn pkexec: ");
            push_str(&mut v, error.as_str());
            Err(string_of(&v))
        },
    }
}

pub open spec fn action_report_spec(service: Seq<char>, action: Seq<char>, r: Result<(), String>) -> Result<
    Seq<char>,
    Seq<char>,
> {
    match r {
        Ok(_) => Ok("Servis '"@ + service + "' üzerinde '"@ + action + "' işlemi başarıyla tamamlandı."@),
        Err(e) => Err("Servis işlemi başarısız: "@ + e@),
    }
}

/// The message that the services tab shows after `action` on `service`
/// finished with `result`.
pub fn action_report(service: &str, action: &str, result: Result<(), String>) -> (r: Result<
    String,
    String,
>)
    ensures
        result_chars(r) == action_report_spec(service@, action@, result),
{
    let mut v: Vec<char> = Vec::new();
    match result {
        Ok(_) => {
            push_str(&mut v, "Servis '");
            push_str(&mut v, service);
            push_str(&mut v, "' üzerinde '");
            push_str(&mut v, action);
            push_str(&mut v, "' işlemi başarıyla tamamlandı.");
            Ok(string_of(&v))
        },
        Err(e) => {
            push_str(&mut v, "Servis işlemi başarısız: ");
            push_str(&mut v, e.as_str());
            Err(string_of(&v))
        },
    }
}

} // verus!

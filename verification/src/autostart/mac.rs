//! Autostart through a user LaunchAgents plist, for macOS and other non-Windows targets.

use vstd::prelude::*;
use vstd::string::*;
use crate::autostart::{AutostartError, AutostartPlan, AutostartStep};
use crate::text::{decimal, owned, push_char, push_decimal};

verus! {

/// The launchd label of the autostart agent.
pub const LAUNCHD_LABEL: &'static str = "com.github.hernanjiang.codexrouter";

/// The file name of the agent's plist in `~/Library/LaunchAgents`.
pub const PLIST_FILE_NAME: &'static str = "com.github.hernanjiang.codexrouter.plist";

/// The GUI executable that the agent starts, inside the installation root.
pub const GUI_EXECUTABLE: &'static str = "Codex-Router";

/// The XML text for one character: the entity for `&`, `<`, `>` and `"`,
/// else the character itself.
pub open spec fn escape_char(c: char) -> Seq<char> {
    if c == '&' {
        seq!['&', 'a', 'm', 'p', ';']
    } else if c == '<' {
        seq!['&', 'l', 't', ';']
    } else if c == '>' {
        seq!['&', 'g', 't', ';']
    } else if c == '"' {
        seq!['&', 'q', 'u', 'o', 't', ';']
    } else {
        seq![c]
    }
}

/// The text with `&`, `<`, `>` and `"` written as XML entities.
pub open spec fn xml_escaped(s: Seq<char>) -> Seq<char>
    decreases s.len(),
{
    if s.len() == 0 {
        Seq::empty()
    } else {
        escape_char(s[0]) + xml_escaped(s.drop_first())
    }
}

/// Escaping a concatenation escapes each part.
pub proof fn lemma_escape_append(a: Seq<char>, b: Seq<char>)
    ensures
        xml_escaped(a + b) == xml_escaped(a) + xml_escaped(b),
    decreases a.len(),
{
    if a.len() == 0 {
        assert(a + b =~= b);
    } else {
        assert((a + b).drop_first() =~= a.drop_first() + b);
        lemma_escape_append(a.drop_first(), b);
        assert(xml_escaped(a + b) =~= xml_escaped(a) + xml_escaped(b));
    }
}

proof fn lemma_escape_push(a: Seq<char>, c: char)
    ensures
        xml_escaped(a.push(c)) == xml_escaped(a) + escape_char(c),
{
    lemma_escape_append(a, seq![c]);
    assert(a + seq![c] =~= a.push(c));
    assert(seq![c].drop_first() =~= Seq::<char>::empty());
    assert(xml_escaped(seq![c]) =~= escape_char(c) + xml_escaped(Seq::<char>::empty()));
    assert(xml_escaped(seq![c]) =~= escape_char(c));
}

/// A character that XML text writes as an entity.
pub open spec fn is_markup(c: char) -> bool {
    c == '&' || c == '<' || c == '>' || c == '"'
}

/// The escaped text holds no `<`, `>` or `"`, so it cannot end the `<string>`
/// element it stands in or open another.
pub proof fn law_escape_leaves_no_markup(s: Seq<char>)
    ensures
        forall|i: int| 0 <= i < xml_escaped(s).len() ==> {
            let c = #[trigger] xml_escaped(s)[i];
            c != '<' && c != '>' && c != '"'
        },
    decreases s.len(),
{
    if s.len() > 0 {
        law_escape_leaves_no_markup(s.drop_first());
        let head = escape_char(s[0]);
        let tail = xml_escaped(s.drop_first());
        assert forall|i: int| 0 <= i < (head + tail).len() implies {
            let c = #[trigger] (head + tail)[i];
            c != '<' && c != '>' && c != '"'
        } by {
            if i >= head.len() {
                assert((head + tail)[i] == tail[i - head.len()]);
            }
        }
    }
}

/// Text without `&`, `<`, `>` and `"` is left as it is.
pub proof fn law_escape_keeps_plain_text(s: Seq<char>)
    requires
        forall|i: int| 0 <= i < s.len() ==> !is_markup(#[trigger] s[i]),
    ensures
        xml_escaped(s) == s,
    decreases s.len(),
{
    if s.len() > 0 {
        assert(!is_markup(s[0]));
        assert forall|i: int| 0 <= i < s.drop_first().len() implies !is_markup(#[trigger] s.drop_first()[i]) by {
            assert(s.drop_first()[i] == s[i + 1]);
        }
        law_escape_keeps_plain_text(s.drop_first());
        assert(seq![s[0]] + s.drop_first() =~= s);
    }
}

proof fn lemma_escape_char_prefix(a: char, b: char, rest_a: Seq<char>, rest_b: Seq<char>)
    requires
        escape_char(a) + rest_a == escape_char(b) + rest_b,
    ensures
        a == b,
        rest_a == rest_b,
{
    let x = escape_char(a) + rest_a;
    assert(x[0] == escape_char(a)[0]);
    assert(x[0] == escape_char(b)[0]);
    if is_markup(a) {
        assert(x.len() >= 4);
        assert(x[1] == escape_char(a)[1]);
        assert(x[1] == escape_char(b)[1]);
    }
    assert(a == b);
    let n = escape_char(a).len() as int;
    assert(rest_a =~= x.subrange(n, x.len() as int));
    assert(rest_b =~= x.subrange(n, x.len() as int));
}

/// Different texts escape differently, so the plist names exactly one executable.
pub proof fn law_escape_is_injective(a: Seq<char>, b: Seq<char>)
    requires
        xml_escaped(a) == xml_escaped(b),
    ensures
        a == b,
    decreases a.len(),
{
    if a.len() == 0 {
        if b.len() > 0 {
            assert(xml_escaped(b).len() > 0);
        }
        assert(a =~= b);
    } else {
        if b.len() == 0 {
            assert(xml_escaped(a).len() > 0);
        } else {
            lemma_escape_char_prefix(a[0], b[0], xml_escaped(a.drop_first()), xml_escaped(b.drop_first()));
            law_escape_is_injective(a.drop_first(), b.drop_first());
            assert(a =~= seq![a[0]] + a.drop_first());
            assert(b =~= seq![b[0]] + b.drop_first());
        }
    }
}

/// Escapes `&`, `<`, `>` and `"` for use in XML text.
pub fn xml_escape(value: &str) -> (escaped: String)
    ensures
        escaped@ == xml_escaped(value@),
{
    let mut out = String::new();
    for c in it: value.chars()
        invariant
            it.seq() == value@,
            out@ == xml_escaped(value@.take(it.index() as int)),
    {
        proof {
            assert(c == value@[it.index() as int]);
            assert(value@.take(it.index() + 1) =~= value@.take(it.index() as int).push(c));
            lemma_escape_push(value@.take(it.index() as int), c);
        }
        if c == '&' {
            proof { reveal_strlit("&amp;"); }
            out.append("&amp;");
        } else if c == '<' {
            proof { reveal_strlit("&lt;"); }
            out.append("&lt;");
        } else if c == '>' {
            proof { reveal_strlit("&gt;"); }
            out.append("&gt;");
        } else if c == '"' {
            proof { reveal_strlit("&quot;"); }
            out.append("&quot;");
        } else {
            push_char(&mut out, c);
        }
    }
    assert(value@.take(value@.len() as int) =~= value@);
    out
}

/// The plist text that precedes the agent's label.
pub open spec fn plist_head() -> Seq<char> {
    "<?xml version=\"1.0\" encoding=\"UTF-8\"?>\n"@
        + "<!DOCTYPE plist PUBLIC \"-//Apple//DTD PLIST 1.0//EN\" "@
        + "\"http://www.apple.com/DTDs/PropertyList-1.0.dtd\">\n"@
        + "<plist version=\"1.0\">\n"@
        + "<dict>\n"@
        + "\t<key>Label</key>\n"@
        + "\t<string>"@
}

/// The plist text between the label and the executable.
pub open spec fn plist_middle() -> Seq<char> {
    "</string>\n"@
        + "\t<key>ProgramArguments</key>\n"@
        + "\t<array>\n"@
        + "\t\t<string>"@
}

/// The plist text after the executable.
pub open spec fn plist_tail() -> Seq<char> {
    "</string>\n"@
        + "\t\t<string>--background</string>\n"@
        + "\t</array>\n"@
        + "\t<key>RunAtLoad</key>\n"@
        + "\t<true/>\n"@
        + "</dict>\n"@
        + "</plist>\n"@
}

/// The LaunchAgents plist that starts `executable --background` at login.
pub open spec fn plist_text(executable: Seq<char>) -> Seq<char> {
    plist_head() + LAUNCHD_LABEL@ + plist_middle() + xml_escaped(executable) + plist_tail()
}

/// For every executable path, the plist is the fixed text that names the
/// agent's label and opens the program arguments, the escaped path, and the
/// fixed text that passes `--background` and sets `RunAtLoad` to true: launchd
/// starts the GUI in background mode at every login, whatever the path holds.
pub proof fn law_plist_runs_the_executable_at_load(executable: Seq<char>)
    ensures
        plist_text(executable) == "<?xml version=\"1.0\" encoding=\"UTF-8\"?>\n<!DOCTYPE plist PUBLIC \"-//Apple//DTD PLIST 1.0//EN\" \"http://www.apple.com/DTDs/PropertyList-1.0.dtd\">\n<plist version=\"1.0\">\n<dict>\n\t<key>Label</key>\n\t<string>com.github.hernanjiang.codexrouter</string>\n\t<key>ProgramArguments</key>\n\t<array>\n\t\t<string>"@
            + xml_escaped(executable)
            + "</string>\n\t\t<string>--background</string>\n\t</array>\n\t<key>RunAtLoad</key>\n\t<true/>\n</dict>\n</plist>\n"@,
{
    reveal_strlit("<?xml version=\"1.0\" encoding=\"UTF-8\"?>\n");
    reveal_strlit("<!DOCTYPE plist PUBLIC \"-//Apple//DTD PLIST 1.0//EN\" ");
    reveal_strlit("\"http://www.apple.com/DTDs/PropertyList-1.0.dtd\">\n");
    reveal_strlit("<plist version=\"1.0\">\n");
    reveal_strlit("<dict>\n");
    reveal_strlit("\t<key>Label</key>\n");
    reveal_strlit("\t<string>");
    reveal_strlit("com.github.hernanjiang.codexrouter");
    reveal_strlit("</string>\n");
    reveal_strlit("\t<key>ProgramArguments</key>\n");
    reveal_strlit("\t<array>\n");
    reveal_strlit("\t\t<string>");
    reveal_strlit("\t\t<string>--background</string>\n");
    reveal_strlit("\t</array>\n");
    reveal_strlit("\t<key>RunAtLoad</key>\n");
    reveal_strlit("\t<true/>\n");
    reveal_strlit("</dict>\n");
    reveal_strlit("</plist>\n");
    reveal_strlit("<?xml version=\"1.0\" encoding=\"UTF-8\"?>\n<!DOCTYPE plist PUBLIC \"-//Apple//DTD PLIST 1.0//EN\" \"http://www.apple.com/DTDs/PropertyList-1.0.dtd\">\n<plist version=\"1.0\">\n<dict>\n\t<key>Label</key>\n\t<string>com.github.hernanjiang.codexrouter</string>\n\t<key>ProgramArguments</key>\n\t<array>\n\t\t<string>");
    reveal_strlit("</string>\n\t\t<string>--background</string>\n\t</array>\n\t<key>RunAtLoad</key>\n\t<true/>\n</dict>\n</plist>\n");
    let head = "<?xml version=\"1.0\" encoding=\"UTF-8\"?>\n<!DOCTYPE plist PUBLIC \"-//Apple//DTD PLIST 1.0//EN\" \"http://www.apple.com/DTDs/PropertyList-1.0.dtd\">\n<plist version=\"1.0\">\n<dict>\n\t<key>Label</key>\n\t<string>com.github.hernanjiang.codexrouter</string>\n\t<key>ProgramArguments</key>\n\t<array>\n\t\t<string>"@;
    let tail = "</string>\n\t\t<string>--background</string>\n\t</array>\n\t<key>RunAtLoad</key>\n\t<true/>\n</dict>\n</plist>\n"@;
    assert(plist_head() + LAUNCHD_LABEL@ + plist_middle() =~= head);
    assert(plist_tail() =~= tail);
    assert(plist_text(executable) =~= head + xml_escaped(executable) + tail);
}

/// The LaunchAgents plist for the GUI executable at `executable`: label
/// `LAUNCHD_LABEL`, program arguments the escaped executable and
/// `--background`, and `RunAtLoad`.
pub fn plist_document(executable: &str) -> (document: String)
    ensures
        document@ == plist_text(executable@),
{
    let escaped = xml_escape(executable);
    let mut out = owned("<?xml version=\"1.0\" encoding=\"UTF-8\"?>\n");
    out.append("<!DOCTYPE plist PUBLIC \"-//Apple//DTD PLIST 1.0//EN\" ");
    out.append("\"http://www.apple.com/DTDs/PropertyList-1.0.dtd\">\n");
    out.append("<plist version=\"1.0\">\n");
    out.append("<dict>\n");
    out.append("\t<key>Label</key>\n");
    out.append("\t<string>");
    assert(out@ =~= plist_head());
    out.append(LAUNCHD_LABEL);
    out.append("</string>\n");
    out.append("\t<key>ProgramArguments</key>\n");
    out.append("\t<array>\n");
    out.append("\t\t<string>");
    assert(out@ =~= plist_head() + LAUNCHD_LABEL@ + plist_middle());
    out.append(escaped.as_str());
    out.append("</string>\n");
    out.append("\t\t<string>--background</string>\n");
    out.append("\t</array>\n");
    out.append("\t<key>RunAtLoad</key>\n");
    out.append("\t<true/>\n");
    out.append("</dict>\n");
    out.append("</plist>\n");
    assert(out@ =~= plist_text(executable@));
    out
}

/// The launchd domain of the user `uid`: `gui/{uid}`.
pub open spec fn gui_domain_text(uid: u32) -> Seq<char> {
    "gui/"@ + decimal(uid as nat)
}

/// The launchd domain of the logged-in user whose id is `uid`.
pub fn gui_domain(uid: u32) -> (domain: String)
    ensures
        domain@ == gui_domain_text(uid),
{
    let mut domain = owned("gui/");
    push_decimal(&mut domain, uid);
    domain
}

/// The `launchctl` arguments that load the agent from `plist_path` for the user `uid`.
pub fn bootstrap_args(uid: u32, plist_path: &str) -> (args: Vec<String>)
    ensures
        args@.map_values(|a: String| a@) == seq!["bootstrap"@, gui_domain_text(uid), plist_path@],
{
    let mut args: Vec<String> = Vec::new();
    args.push(owned("bootstrap"));
    args.push(gui_domain(uid));
    args.push(owned(plist_path));
    assert(args@.map_values(|a: String| a@) =~= seq!["bootstrap"@, gui_domain_text(uid), plist_path@]);
    args
}

/// The `launchctl` arguments that unload the agent of the user `uid`:
/// `bootout gui/{uid}/{label}`.
pub fn bootout_args(uid: u32) -> (args: Vec<String>)
    ensures
        args@.map_values(|a: String| a@) == seq!["bootout"@, gui_domain_text(uid) + "/"@ + LAUNCHD_LABEL@],
{
    let mut target = gui_domain(uid);
    target.append("/");
    target.append(LAUNCHD_LABEL);
    let mut args: Vec<String> = Vec::new();
    args.push(owned("bootout"));
    args.push(target);
    assert(args@.map_values(|a: String| a@) =~= seq!["bootout"@, gui_domain_text(uid) + "/"@ + LAUNCHD_LABEL@]);
    args
}

/// The steps of enabling or disabling the LaunchAgents plist, and what it
/// returns once they have run. `manage_service` tells whether launchctl is
/// driven too (it is not where `CODEX_ROUTER_LAUNCHD_DIR` points the plist
/// elsewhere).
pub open spec fn plan_of(enabled: bool, executable_present: bool, manage_service: bool) -> (Seq<AutostartStep>, Result<(), AutostartError>) {
    if enabled && !executable_present {
        (Seq::empty(), Err(AutostartError::MissingExecutable))
    } else if enabled {
        (seq![AutostartStep::CreateAgentsDir, AutostartStep::InstallPlist]
            + if manage_service { seq![AutostartStep::BootstrapService] } else { Seq::empty() }, Ok(()))
    } else {
        ((if manage_service { seq![AutostartStep::BootoutService] } else { Seq::empty() })
            + seq![AutostartStep::RemovePlist], Ok(()))
    }
}

/// Registers or unregisters the LaunchAgents plist: the steps to run in
/// order, stopping at the first that fails, and the result once all have run.
pub fn set_enabled(enabled: bool, executable_present: bool, manage_service: bool) -> (plan: AutostartPlan)
    ensures
        plan.steps@ == plan_of(enabled, executable_present, manage_service).0,
        plan.outcome == plan_of(enabled, executable_present, manage_service).1,
{
    let mut steps: Vec<AutostartStep> = Vec::new();
    if enabled && !executable_present {
        return AutostartPlan { steps, outcome: Err(AutostartError::MissingExecutable) };
    }
    if enabled {
        steps.push(AutostartStep::CreateAgentsDir);
        steps.push(AutostartStep::InstallPlist);
        if manage_service {
            steps.push(AutostartStep::BootstrapService);
        }
    } else {
        if manage_service {
            steps.push(AutostartStep::BootoutService);
        }
        steps.push(AutostartStep::RemovePlist);
    }
    assert(steps@ =~= plan_of(enabled, executable_present, manage_service).0);
    AutostartPlan { steps, outcome: Ok(()) }
}

} // verus!

//! iris_source_control — SCM status, menu, checkout and execute: the
//! ObjectScript each step runs and how its output is read.
use vstd::prelude::*;
use crate::deps::{regex_captures, regex_captures_result, opt_view};
use crate::elicitation::{ElicitationStore, ElicitationAction, PendingElicitation, lookup_s};
use crate::deps::is_hyphenated_uuid;
use crate::text::{
    lead_count, lemma_lead_count,
    chars_of, string_of, trim, trim_s, str_eq, replace_char, replace_char_s, splitn, splitn_s,
    parse_unsigned, parse_unsigned_s, views, lines, lines_s, to_ascii_lowercase, lower_s,
    ends_with, has_suffix, starts_with, has_prefix, eq_ignore_ascii_case, eq_ignore_case_s,
    u64_to_string, digits_s, lower_char,
};

verus! {

/// Menu prefix used for source control actions.
pub const SCM_MENU: &'static str = "%SourceMenu";

/// The namespace used when a call names none.
pub fn default_namespace() -> (r: String)
    ensures
        r@ == "USER"@,
{
    String::from_str("USER")
}

/// SCM menu actions as reported by %Studio.SourceControl.Interface:MenuItems.
#[derive(Debug, PartialEq, Eq)]
pub enum ScmAction {
    CheckOut,
    UndoCheckout,
    CheckIn,
    GetLatest,
    AddToSourceControl,
    Diff,
    Disconnect,
    Reconnect,
    Unknown(String),
}

/// `str::trim_start_matches('%')`.
pub open spec fn strip_percent(s: Seq<char>) -> Seq<char> {
    s.skip(lead_count(s, '%') as int)
}

/// The action named by `t` (leading `%` already removed).
pub open spec fn scm_action_named(t: Seq<char>, a: ScmAction) -> bool {
    if t == "CheckOut"@ {
        a is CheckOut
    } else if t == "UndoCheckout"@ {
        a is UndoCheckout
    } else if t == "CheckIn"@ {
        a is CheckIn
    } else if t == "GetLatest"@ {
        a is GetLatest
    } else if t == "AddToSourceControl"@ {
        a is AddToSourceControl
    } else if t == "Diff"@ {
        a is Diff
    } else if t == "Disconnect"@ {
        a is Disconnect
    } else if t == "Reconnect"@ {
        a is Reconnect
    } else {
        a matches ScmAction::Unknown(s) && s@ == t
    }
}

impl ScmAction {
    /// The action for a menu id, ignoring leading `%`s.
    pub fn from_id(id: &str) -> (r: Self)
        ensures
            scm_action_named(strip_percent(id@), r),
    {
        let v = chars_of(id);
        let mut i: usize = 0;
        while i < v.len() && v[i] == '%'
            invariant
                0 <= i <= v@.len(),
                forall|j: int| 0 <= j < i ==> v@[j] == '%',
            decreases v.len() - i,
        {
            i = i + 1;
        }
        proof {
            lemma_lead_count(v@, '%', i as int);
        }
        let t = string_of(&v, i, v.len());
        let ts = t.as_str();
        if str_eq(ts, "CheckOut") {
            ScmAction::CheckOut
        } else if str_eq(ts, "UndoCheckout") {
            ScmAction::UndoCheckout
        } else if str_eq(ts, "CheckIn") {
            ScmAction::CheckIn
        } else if str_eq(ts, "GetLatest") {
            ScmAction::GetLatest
        } else if str_eq(ts, "AddToSourceControl") {
            ScmAction::AddToSourceControl
        } else if str_eq(ts, "Diff") {
            ScmAction::Diff
        } else if str_eq(ts, "Disconnect") {
            ScmAction::Disconnect
        } else if str_eq(ts, "Reconnect") {
            ScmAction::Reconnect
        } else {
            ScmAction::Unknown(t)
        }
    }

    /// Whether this is the check-in action.
    pub fn is_check_in(&self) -> (r: bool)
        ensures
            r == (*self is CheckIn),
    {
        match self {
            ScmAction::CheckIn => true,
            _ => false,
        }
    }
}

/// Whether the id names the check-in action (`CheckIn`, `%CheckIn`, ...).
pub open spec fn is_check_in_id(id: Seq<char>) -> bool {
    strip_percent(id) == "CheckIn"@
}

/// Whether `id` names the check-in action.
pub fn is_check_in_id_exec(id: &str) -> (r: bool)
    ensures
        r == is_check_in_id(id@),
{
    let a = ScmAction::from_id(id);
    proof {
        reveal_strlit("CheckIn");
        reveal_strlit("CheckOut");
        reveal_strlit("UndoCheckout");
        reveal_strlit("GetLatest");
        reveal_strlit("AddToSourceControl");
        reveal_strlit("Diff");
        reveal_strlit("Disconnect");
        reveal_strlit("Reconnect");
        let t = strip_percent(id@);
        if t == "CheckIn"@ {
            assert("CheckIn"@.len() == 7);
            assert("CheckOut"@.len() == 8);
            assert("UndoCheckout"@.len() == 12);
        } else {
            assert(!(a is CheckIn));
        }
    }
    a.is_check_in()
}

// ---------------------------------------------------------------------------
// Quoting and output parsing
// ---------------------------------------------------------------------------
/// ObjectScript quoting: `"` → `""`, newline → `$Char(10)`, CR → `$Char(13)`.
pub open spec fn os_quote_s(s: Seq<char>) -> Seq<char> {
    replace_char_s(
        replace_char_s(replace_char_s(s, '"', "\"\""@), '\n', "$Char(10)"@),
        '\r',
        "$Char(13)"@,
    )
}

/// Escape a string for safe interpolation into an ObjectScript double-quoted
/// literal.
pub fn os_quote(s: &str) -> (r: String)
    ensures
        r@ == os_quote_s(s@),
{
    let a = replace_char(s, '"', "\"\"");
    let b = replace_char(a.as_str(), '\n', "$Char(10)");
    replace_char(b.as_str(), '\r', "$Char(13)")
}

/// The action code of a `code|msg` output: the trimmed text before the first
/// `|` as a `u8`, 0 when it does not parse.
pub open spec fn action_code_s(out: Seq<char>) -> u8 {
    match parse_unsigned_s(trim_s(splitn_s(out, 2, '|')[0]), 255) {
        Some(n) => n as u8,
        None => 0,
    }
}

/// The message of a `code|msg` output: the trimmed text after the first `|`,
/// or empty.
pub open spec fn action_msg_s(out: Seq<char>) -> Seq<char> {
    let parts = splitn_s(out, 2, '|');
    if parts.len() > 1 {
        trim_s(parts[1])
    } else {
        Seq::empty()
    }
}

proof fn lemma_splitn_nonempty(s: Seq<char>, n: nat, c: char)
    ensures
        splitn_s(s, n, c).len() >= 1,
    decreases n,
{
    if n > 1 {
        match crate::text::find_char_s(s, c) {
            Some(i) => {},
            None => {},
        }
    }
}

/// Parse "code|msg" output from SCM helpers. Returns (action_code, msg).
pub fn parse_action_msg(out: &str) -> (r: (u8, String))
    ensures
        r.0 == action_code_s(out@),
        r.1@ == action_msg_s(out@),
{
    let parts = splitn(out, 2, '|');
    proof {
        lemma_splitn_nonempty(out@, 2, '|');
    }
    let first = trim(parts[0].as_str());
    let code: u8 = match parse_unsigned(first.as_str(), 255) {
        Some(n) => n as u8,
        None => 0,
    };
    let msg = if parts.len() > 1 {
        trim(parts[1].as_str())
    } else {
        String::new()
    };
    (code, msg)
}

// ---------------------------------------------------------------------------
// ObjectScript snippets
// ---------------------------------------------------------------------------
pub const STATUS_A: &'static str = "set isErr=0,isInSC=0,editable=0,isCheckedOut=0,owner=\"\" \
     set hasCheckOut=0,hasUndoCheckout=0,hasAddToSC=0 \
     try { set sc=##class(%Studio.SourceControl.Interface).SourceControlCreate(\"";

pub const QUOTE_COMMA_QUOTE: &'static str = "\",\"";

pub const STATUS_C: &'static str = "\",.created,.flags,.outuser) } catch { set isErr=1 } \
     try { set sc=##class(%Studio.SourceControl.Interface).GetStatus(\"";

pub const STATUS_D: &'static str = "\",.isInSC,.editable,.isCheckedOut,.owner) if $system.Status.IsError(sc) { set isErr=1 } } catch { set isErr=1 } \
     try { \
       set rset=##class(%ResultSet).%New(\"%Studio.SourceControl.Interface:MenuItems\") \
       set sc=rset.Execute(\"%SourceMenu\",\"";

pub const STATUS_E: &'static str = "\",\"\") \
       while rset.Next() { \
         set itemName=rset.GetData(1),itemEnabled=rset.GetData(2) \
         if itemEnabled&&(itemName=\"%CheckOut\") { set hasCheckOut=1 } \
         if itemEnabled&&(itemName=\"%UndoCheckout\") { set hasUndoCheckout=1 } \
         if itemEnabled&&(itemName=\"%AddToSourceControl\") { set hasAddToSC=1 } \
       } \
     } catch { set isErr=1 } \
     write \"SCMSTATUS|\"_isErr_\"|\"_isInSC_\"|\"_editable_\"|\"_hasCheckOut_\"|\"_hasUndoCheckout_\"|\"_hasAddToSC_\"|\"_owner";

pub const INIT_A: &'static str = "set sc=##class(%Studio.SourceControl.Interface).SourceControlCreate(\"";

pub const INIT_C: &'static str = "\",.created,.flags,.outuser) \
     set obj=$get(%SourceControl) \
     if '$IsObject(obj) { write \"SCM_UNAVAILABLE\" quit } ";

pub const USER_ACTION_A: &'static str = "set action=0 set target=\"\" set msg=\"\" set reload=0 \
     set sc=obj.UserAction(0,\"%SourceMenu,";

pub const USER_ACTION_C: &'static str = "\",\"\",.action,.target,.msg,.reload) \
     write action_\"|\"_$select(msg'=\"\":msg,target'=\"\":target,1:\"\")";

pub const AFTER_ACTION_C: &'static str = "\",\"\",.action,.target,.msg,.reload) \
     set sc=obj.AfterUserAction(0,\"%SourceMenu,";

pub const AFTER_ACTION_E: &'static str = "\",";

pub const AFTER_ACTION_F: &'static str = ",\"\") \
     write $system.Status.GetErrorText(sc)";

pub const MENU_A: &'static str = "set rset=##class(%ResultSet).%New(\"%Studio.SourceControl.Interface:MenuItems\") \
     set sc=rset.Execute(\"%SourceMenu\",\"";

pub const MENU_C: &'static str = "\",\"\") \
     while rset.Next() { write rset.GetData(1)_\"|\"_rset.GetData(2),! }";

/// The status probe for `doc`; it writes one line
/// `SCMSTATUS|isErr|isInSC|editable|hasCheckOut|hasUndoCheckout|hasAddToSC|owner`.
pub open spec fn status_check_code_s(doc: Seq<char>, user: Seq<char>, pass: Seq<char>) -> Seq<char> {
    STATUS_A@ + os_quote_s(user) + QUOTE_COMMA_QUOTE@ + os_quote_s(pass) + STATUS_C@ + os_quote_s(doc)
        + STATUS_D@ + os_quote_s(doc) + STATUS_E@
}

/// Build the ObjectScript snippet that determines SCM status for a document.
pub fn status_check_code(doc: &str, username: &str, password: &str) -> (r: String)
    ensures
        r@ == status_check_code_s(doc@, username@, password@),
{
    let doc_q = os_quote(doc);
    let user_q = os_quote(username);
    let pass_q = os_quote(password);
    let mut r = String::from_str(STATUS_A);
    r.append(user_q.as_str());
    r.append(QUOTE_COMMA_QUOTE);
    r.append(pass_q.as_str());
    r.append(STATUS_C);
    r.append(doc_q.as_str());
    r.append(STATUS_D);
    r.append(doc_q.as_str());
    r.append(STATUS_E);
    r
}

/// The session prefix: create the SCM session, bind `obj`, or write
/// `SCM_UNAVAILABLE` and quit.
pub open spec fn scm_init_prefix_s(user: Seq<char>, pass: Seq<char>) -> Seq<char> {
    INIT_A@ + os_quote_s(user) + QUOTE_COMMA_QUOTE@ + os_quote_s(pass) + INIT_C@
}

/// Prefix that initializes a SCM session via SourceControlCreate and binds
/// obj=%SourceControl.
pub fn scm_init_prefix(username: &str, password: &str) -> (r: String)
    ensures
        r@ == scm_init_prefix_s(username@, password@),
{
    let user_q = os_quote(username);
    let pass_q = os_quote(password);
    let mut r = String::from_str(INIT_A);
    r.append(user_q.as_str());
    r.append(QUOTE_COMMA_QUOTE);
    r.append(pass_q.as_str());
    r.append(INIT_C);
    r
}

/// `UserAction` for `action_id` on `doc`, writing `action|msg`.
pub open spec fn user_action_code_s(action_id: Seq<char>, doc: Seq<char>, user: Seq<char>, pass: Seq<char>) -> Seq<char> {
    scm_init_prefix_s(user, pass) + USER_ACTION_A@ + os_quote_s(action_id) + QUOTE_COMMA_QUOTE@
        + os_quote_s(doc) + USER_ACTION_C@
}

/// Build the ObjectScript snippet that invokes `UserAction` on the SCM
/// instance, writing "action|msg" to the output stream.
pub fn user_action_code(action_id: &str, doc: &str, username: &str, password: &str) -> (r: String)
    ensures
        r@ == user_action_code_s(action_id@, doc@, username@, password@),
{
    let mut r = scm_init_prefix(username, password);
    let a = os_quote(action_id);
    let d = os_quote(doc);
    r.append(USER_ACTION_A);
    r.append(a.as_str());
    r.append(QUOTE_COMMA_QUOTE);
    r.append(d.as_str());
    r.append(USER_ACTION_C);
    r
}

/// `UserAction` then `AfterUserAction` in one job; the answer is 1 for
/// exactly `yes`, else 0.
pub open spec fn after_user_action_code_s(
    action_id: Seq<char>,
    doc: Seq<char>,
    answer: Seq<char>,
    user: Seq<char>,
    pass: Seq<char>,
) -> Seq<char> {
    scm_init_prefix_s(user, pass) + USER_ACTION_A@ + os_quote_s(action_id) + QUOTE_COMMA_QUOTE@
        + os_quote_s(doc) + AFTER_ACTION_C@ + os_quote_s(action_id) + QUOTE_COMMA_QUOTE@
        + os_quote_s(doc) + AFTER_ACTION_E@ + (if answer == "yes"@ {
        "1"@
    } else {
        "0"@
    }) + AFTER_ACTION_F@
}

/// Build the ObjectScript snippet that re-runs `UserAction` then immediately
/// calls `AfterUserAction` in the same job.
pub fn after_user_action_code(
    action_id: &str,
    doc: &str,
    answer: &str,
    username: &str,
    password: &str,
) -> (r: String)
    ensures
        r@ == after_user_action_code_s(action_id@, doc@, answer@, username@, password@),
{
    let mut r = scm_init_prefix(username, password);
    let a = os_quote(action_id);
    let d = os_quote(doc);
    let answer_int = if str_eq(answer, "yes") {
        "1"
    } else {
        "0"
    };
    r.append(USER_ACTION_A);
    r.append(a.as_str());
    r.append(QUOTE_COMMA_QUOTE);
    r.append(d.as_str());
    r.append(AFTER_ACTION_C);
    r.append(a.as_str());
    r.append(QUOTE_COMMA_QUOTE);
    r.append(d.as_str());
    r.append(AFTER_ACTION_E);
    r.append(answer_int);
    r.append(AFTER_ACTION_F);
    r
}

/// The menu query for `doc`: one `name|enabled` line per item.
pub open spec fn menu_all_items_code_s(doc: Seq<char>, user: Seq<char>, pass: Seq<char>) -> Seq<char> {
    scm_init_prefix_s(user, pass) + MENU_A@ + os_quote_s(doc) + MENU_C@
}

/// Build a single ObjectScript snippet that queries all SCM menu items.
pub fn menu_all_items_code(doc: &str, username: &str, password: &str) -> (r: String)
    ensures
        r@ == menu_all_items_code_s(doc@, username@, password@),
{
    let mut r = scm_init_prefix(username, password);
    let d = os_quote(doc);
    r.append(MENU_A);
    r.append(d.as_str());
    r.append(MENU_C);
    r
}

// ---------------------------------------------------------------------------
// Status
// ---------------------------------------------------------------------------
/// Resolved SCM status for a document.
#[derive(Debug, PartialEq, Eq)]
pub struct ScmStatus {
    /// The document is under source control.
    pub controlled: bool,
    /// The document can be written right now.
    pub editable: bool,
    /// The document is locked by someone else.
    pub locked: bool,
    /// The current user holds the checkout.
    pub checked_out_by_me: bool,
    /// The checkout owner, when known.
    pub owner: Option<String>,
}

/// The owner as reported, or none when it is blank.
pub open spec fn owner_opt_s(owner: Seq<char>) -> Option<Seq<char>> {
    if trim_s(owner).len() > 0 {
        Some(trim_s(owner))
    } else {
        None
    }
}

/// Combine every SCM signal into a status. None when there is no signal at
/// all. Offered `AddToSourceControl` → uncontrolled and editable; offered
/// `UndoCheckout` → checked out by the current user; offered `CheckOut` →
/// controlled and free; otherwise controlled and locked by someone else.
pub open spec fn derive_scm_status_s(
    is_in_sc: bool,
    has_checkout: bool,
    has_undo_checkout: bool,
    has_add_to_sc: bool,
    owner: Seq<char>,
    current_user: Seq<char>,
) -> Option<(bool, bool, bool, bool, Option<Seq<char>>)> {
    let o = owner_opt_s(owner);
    if !(is_in_sc || has_checkout || has_undo_checkout || has_add_to_sc || o is Some) {
        None
    } else if has_add_to_sc {
        Some((false, true, false, false, None))
    } else if has_undo_checkout {
        Some(
            (
                true,
                true,
                false,
                true,
                match o {
                    Some(x) => Some(x),
                    None => Some(current_user),
                },
            ),
        )
    } else if has_checkout {
        Some((true, false, false, false, o))
    } else {
        Some((true, false, true, false, o))
    }
}

/// The fields of a status.
pub open spec fn status_fields(s: ScmStatus) -> (bool, bool, bool, bool, Option<Seq<char>>) {
    (s.controlled, s.editable, s.locked, s.checked_out_by_me, opt_view(s.owner))
}

/// Combine every SCM signal into a coherent status; None when inconclusive.
pub fn derive_scm_status(
    is_in_sc: bool,
    has_checkout: bool,
    has_undo_checkout: bool,
    has_add_to_sc: bool,
    owner: &str,
    current_user: &str,
) -> (r: Option<ScmStatus>)
    ensures
        match r {
            Some(s) => derive_scm_status_s(
                is_in_sc,
                has_checkout,
                has_undo_checkout,
                has_add_to_sc,
                owner@,
                current_user@,
            ) == Some(status_fields(s)),
            None => derive_scm_status_s(
                is_in_sc,
                has_checkout,
                has_undo_checkout,
                has_add_to_sc,
                owner@,
                current_user@,
            ) is None,
        },
{
    let t = trim(owner);
    let owner_opt: Option<String> = if t.as_str().unicode_len() > 0 {
        Some(t)
    } else {
        None
    };
    let any_signal = is_in_sc || has_checkout || has_undo_checkout || has_add_to_sc
        || owner_opt.is_some();
    if !any_signal {
        return None;
    }
    if has_add_to_sc {
        return Some(
            ScmStatus {
                controlled: false,
                editable: true,
                locked: false,
                checked_out_by_me: false,
                owner: None,
            },
        );
    }
    if has_undo_checkout {
        let o = match owner_opt {
            Some(x) => Some(x),
            None => Some(String::from_str(current_user)),
        };
        return Some(
            ScmStatus {
                controlled: true,
                editable: true,
                locked: false,
                checked_out_by_me: true,
                owner: o,
            },
        );
    }
    if has_checkout {
        return Some(
            ScmStatus {
                controlled: true,
                editable: false,
                locked: false,
                checked_out_by_me: false,
                owner: owner_opt,
            },
        );
    }
    Some(
        ScmStatus {
            controlled: true,
            editable: false,
            locked: true,
            checked_out_by_me: false,
            owner: owner_opt,
        },
    )
}

/// A status flag: set unless it is `0` or blank after trimming.
pub open spec fn flag_s(p: Seq<char>) -> bool {
    trim_s(p) != "0"@ && trim_s(p).len() > 0
}

/// Parse a `SCMSTATUS|isErr|isInSC|editable|hasCheckOut|hasUndoCheckout|hasAddToSC|owner`
/// line into `(isInSC, hasCheckOut, hasUndoCheckout, hasAddToSC, owner)`.
/// None without the sentinel or with fewer than seven fields.
pub open spec fn parse_scm_status_line_s(line: Seq<char>) -> Option<(bool, bool, bool, bool, Seq<char>)> {
    let parts = splitn_s(trim_s(line), 8, '|');
    if parts.len() >= 7 && parts[0] == "SCMSTATUS"@ {
        Some(
            (
                flag_s(parts[2]),
                flag_s(parts[4]),
                flag_s(parts[5]),
                flag_s(parts[6]),
                if parts.len() > 7 {
                    trim_s(parts[7])
                } else {
                    Seq::empty()
                },
            ),
        )
    } else {
        None
    }
}

fn flag(p: &str) -> (r: bool)
    ensures
        r == flag_s(p@),
{
    let t = trim(p);
    !str_eq(t.as_str(), "0") && t.as_str().unicode_len() > 0
}

/// Parse the `SCMSTATUS|...` line emitted by `status_check_code`.
pub fn parse_scm_status_line(line: &str) -> (r: Option<(bool, bool, bool, bool, String)>)
    ensures
        match r {
            Some((a, b, c, d, o)) => parse_scm_status_line_s(line@) == Some((a, b, c, d, o@)),
            None => parse_scm_status_line_s(line@) is None,
        },
{
    let t = trim(line);
    let parts = splitn(t.as_str(), 8, '|');
    if parts.len() >= 7 && str_eq(parts[0].as_str(), "SCMSTATUS") {
        let owner = if parts.len() > 7 {
            trim(parts[7].as_str())
        } else {
            String::new()
        };
        Some(
            (
                flag(parts[2].as_str()),
                flag(parts[4].as_str()),
                flag(parts[5].as_str()),
                flag(parts[6].as_str()),
                owner,
            ),
        )
    } else {
        None
    }
}

/// The pattern of the provider's native "checked out by user" notice.
pub const CHECKED_OUT_PATTERN: &'static str = "checked out by user '([^']+)'(?:.*?updated at ([0-9-]+ [0-9:]+))?";

/// The owner and optional timestamp read from the native notice: group 1
/// (trimmed, must not be empty) and group 2 (trimmed) of the first match.
pub open spec fn checked_out_by_s(raw: Seq<char>) -> Option<(Seq<char>, Option<Seq<char>>)> {
    match regex_captures_result(CHECKED_OUT_PATTERN@, raw) {
        Some(groups) => if groups.len() > 1 && groups[1] is Some && trim_s(groups[1]->0).len() > 0 {
            Some(
                (
                    trim_s(groups[1]->0),
                    if groups.len() > 2 && groups[2] is Some {
                        Some(trim_s(groups[2]->0))
                    } else {
                        None
                    },
                ),
            )
        } else {
            None
        },
        None => None,
    }
}

/// Fallback owner detection from the SCM provider's native
/// `checked out by user '<name>'` notice. Returns (owner, timestamp).
pub fn parse_checked_out_by(raw: &str) -> (r: Option<(String, Option<String>)>)
    ensures
        match r {
            Some((o, ts)) => checked_out_by_s(raw@) == Some((o@, opt_view(ts))),
            None => checked_out_by_s(raw@) is None,
        },
{
    let groups = match regex_captures(CHECKED_OUT_PATTERN, raw) {
        Some(g) => g,
        None => {
            return None;
        },
    };
    let ghost gv = Seq::new(groups@.len(), |i: int| opt_view(groups@[i]));
    if groups.len() <= 1 {
        return None;
    }
    let owner = match &groups[1] {
        Some(s) => trim(s.as_str()),
        None => {
            return None;
        },
    };
    assert(gv[1] is Some);
    if owner.as_str().unicode_len() == 0 {
        return None;
    }
    let ts = if groups.len() > 2 {
        match &groups[2] {
            Some(s) => Some(trim(s.as_str())),
            None => None,
        }
    } else {
        None
    };
    assert(groups@.len() > 2 ==> gv[2] == opt_view(groups@[2]));
    Some((owner, ts))
}

/// The answer to `action=status`.
pub enum ScmStatusAnswer {
    /// The probe's sentinel line resolved to a status.
    Status(ScmStatus),
    /// No sentinel, but the native notice names who holds the checkout.
    CheckedOutBy { owner: String, checked_out_by_me: bool, checked_out_at: Option<String> },
    /// The status could not be determined; `raw_output` echoes the output.
    Unavailable { error: String, raw_output: Option<String> },
}

/// The first line of `ls` that parses as a status line, from index `i` on.
pub open spec fn first_status_from(ls: Seq<Seq<char>>, i: int) -> Option<(bool, bool, bool, bool, Seq<char>)>
    decreases ls.len() - i,
{
    if i < 0 || i >= ls.len() {
        None
    } else {
        match parse_scm_status_line_s(ls[i]) {
            Some(x) => Some(x),
            None => first_status_from(ls, i + 1),
        }
    }
}

/// The first 600 characters of the trimmed output.
pub open spec fn raw_trunc_s(raw: Seq<char>) -> Seq<char> {
    let t = trim_s(raw);
    if t.len() > 600 {
        t.take(600)
    } else {
        t
    }
}

/// Whether `r` is the answer the status probe's output `raw` gives.
pub open spec fn is_status_answer(raw: Seq<char>, username: Seq<char>, r: ScmStatusAnswer) -> bool {
    let ls = lines_s(raw);
    match first_status_from(ls, 0) {
        Some((a, b, c, d, o)) => match derive_scm_status_s(a, b, c, d, o, username) {
            Some(st) => r matches ScmStatusAnswer::Status(s) && status_fields(s) == st,
            None => r matches ScmStatusAnswer::Unavailable { error, raw_output } && error@
                == "Source control status is indeterminate for this document"@
                && raw_output is None,
        },
        None => match checked_out_by_s(raw) {
            Some((owner, ts)) => r matches ScmStatusAnswer::CheckedOutBy {
                owner: o,
                checked_out_by_me,
                checked_out_at,
            } && o@ == owner && opt_view(checked_out_at) == ts && checked_out_by_me
                == eq_ignore_case_s(owner, username),
            None => r matches ScmStatusAnswer::Unavailable { error, raw_output } && error@
                == "Could not determine source control status (no SCMSTATUS sentinel in IRIS output)"@
                && opt_view(raw_output) == Some(raw_trunc_s(raw)),
        },
    }
}

/// Read the status probe's output: the first line with the sentinel decides
/// (indeterminate → unavailable); without one, the native checked-out notice;
/// otherwise unavailable with the (truncated) raw output.
pub fn scm_status_answer(raw: &str, username: &str) -> (r: ScmStatusAnswer)
    ensures
        is_status_answer(raw@, username@, r),
{
    let ls = lines(raw);
    let ghost lv = lines_s(raw@);
    let mut i: usize = 0;
    let mut found: Option<(bool, bool, bool, bool, String)> = None;
    while i < ls.len() && found.is_none()
        invariant
            views(ls@) == lv,
            0 <= i <= ls@.len(),
            found is None ==> first_status_from(lv, 0) == first_status_from(lv, i as int),
            match found {
                Some((a, b, c, d, o)) => first_status_from(lv, 0) == Some((a, b, c, d, o@)),
                None => true,
            },
        decreases ls.len() - i, (if found is None { 1int } else { 0int }),
    {
        let p = parse_scm_status_line(ls[i].as_str());
        proof {
            assert(lv[i as int] == ls@[i as int]@);
        }
        if p.is_some() {
            found = p;
        } else {
            i = i + 1;
        }
    }
    match found {
        Some((a, b, c, d, o)) => {
            assert(first_status_from(lv, 0) == Some((a, b, c, d, o@)));
            match derive_scm_status(a, b, c, d, o.as_str(), username) {
                Some(s) => ScmStatusAnswer::Status(s),
                None => ScmStatusAnswer::Unavailable {
                    error: String::from_str(
                        "Source control status is indeterminate for this document",
                    ),
                    raw_output: None,
                },
            }
        },
        None => {
            assert(first_status_from(lv, 0) is None);
            match parse_checked_out_by(raw) {
                Some((owner, ts)) => {
                    let me = eq_ignore_ascii_case(owner.as_str(), username);
                    ScmStatusAnswer::CheckedOutBy { owner, checked_out_by_me: me, checked_out_at: ts }
                },
                None => {
                    let t = trim(raw);
                    let tv = chars_of(t.as_str());
                    let n = if tv.len() > 600 {
                        600
                    } else {
                        tv.len()
                    };
                    let trunc = string_of(&tv, 0, n);
                    assert(tv@.len() <= 600 ==> tv@.subrange(0, tv@.len() as int) == tv@);
                    ScmStatusAnswer::Unavailable {
                        error: String::from_str(
                            "Could not determine source control status (no SCMSTATUS sentinel in IRIS output)",
                        ),
                        raw_output: Some(trunc),
                    }
                },
            }
        },
    }
}

// ---------------------------------------------------------------------------
// The tool call: what it asks IRIS to run and how it answers
// ---------------------------------------------------------------------------
/// Parameters of `iris_source_control`.
pub struct ScmParams {
    /// Action: status, menu, checkout, execute
    pub action: String,
    pub document: Option<String>,
    /// SCM action ID for action=execute
    pub action_id: Option<String>,
    /// Elicitation resume answer
    pub answer: Option<String>,
    pub elicitation_id: Option<String>,
    pub namespace: String,
    /// Has no effect: source_control writes on subject instances are always
    /// hard-blocked regardless of confirm.
    pub confirm: bool,
}

/// Whether the lower-cased name already ends in a document extension.
pub open spec fn has_doc_extension(lower: Seq<char>) -> bool {
    has_suffix(lower, ".cls"@) || has_suffix(lower, ".mac"@) || has_suffix(lower, ".inc"@)
        || has_suffix(lower, ".int"@)
}

/// The document a call acts on: a non-empty name without a `.cls`, `.mac`,
/// `.inc` or `.int` extension (in any case) gets `.cls` appended.
pub open spec fn normalize_scm_document_s(raw: Seq<char>) -> Seq<char> {
    if raw.len() > 0 && !has_doc_extension(lower_s(raw)) {
        raw + ".cls"@
    } else {
        raw
    }
}

/// A name whose lower-case form ends in `.cls`, `.mac`, `.inc` or `.int` is
/// kept as it is; any other non-empty name gets `.cls` appended; the empty
/// name stays empty. Normalizing twice is normalizing once.
pub proof fn lemma_normalize_scm_document(raw: Seq<char>)
    ensures
        ({
            let l = lower_s(raw);
            has_suffix(l, ".cls"@) || has_suffix(l, ".mac"@) || has_suffix(l, ".inc"@)
                || has_suffix(l, ".int"@)
        }) ==> normalize_scm_document_s(raw) == raw,
        raw.len() > 0 && !({
            let l = lower_s(raw);
            has_suffix(l, ".cls"@) || has_suffix(l, ".mac"@) || has_suffix(l, ".inc"@)
                || has_suffix(l, ".int"@)
        }) ==> normalize_scm_document_s(raw) == raw + ".cls"@,
        raw.len() == 0 ==> normalize_scm_document_s(raw) == raw,
        normalize_scm_document_s(normalize_scm_document_s(raw)) == normalize_scm_document_s(raw),
{
    reveal_strlit(".cls");
    let d = raw + ".cls"@;
    let l = lower_s(d);
    assert(l.skip(l.len() - 4) =~= ".cls"@) by {
        assert forall|i: int| 0 <= i < 4 implies l.skip(l.len() - 4)[i] == ".cls"@[i] by {
            assert(l.skip(l.len() - 4)[i] == lower_char(d[raw.len() + i]));
            assert(d[raw.len() + i] == ".cls"@[i]);
        }
    }
    assert(has_suffix(l, ".cls"@));
}

/// The document name a source-control call acts on.
pub fn normalize_scm_document(raw: &str) -> (r: String)
    ensures
        r@ == normalize_scm_document_s(raw@),
{
    let lower = to_ascii_lowercase(raw);
    let l = lower.as_str();
    let known = ends_with(l, ".cls") || ends_with(l, ".mac") || ends_with(l, ".inc") || ends_with(
        l,
        ".int",
    );
    let mut r = String::from_str(raw);
    if !raw.is_empty() && !known {
        r.append(".cls");
    }
    r
}

/// The trimmed first line of `raw` (empty when there is none).
pub open spec fn first_line_s(raw: Seq<char>) -> Seq<char> {
    let ls = lines_s(raw);
    if ls.len() > 0 {
        trim_s(ls[0])
    } else {
        Seq::empty()
    }
}

fn first_line(raw: &str) -> (r: String)
    ensures
        r@ == first_line_s(raw@),
{
    let ls = lines(raw);
    if ls.len() > 0 {
        proof {
            assert(views(ls@)[0] == ls@[0]@);
        }
        trim(ls[0].as_str())
    } else {
        String::new()
    }
}

/// The action a menu line offers, if it is offered: `name|enabled` lines
/// with `enabled` 1, a non-empty name and not the check-in action; the
/// `SCM_UNAVAILABLE`, empty and `ERROR…` lines are skipped.
pub open spec fn menu_entry_s(line: Seq<char>) -> Option<Seq<char>> {
    let t = trim_s(line);
    if t == "SCM_UNAVAILABLE"@ || t.len() == 0 || has_prefix(t, "ERROR"@) {
        None
    } else {
        let parts = splitn_s(t, 2, '|');
        let name = trim_s(parts[0]);
        let enabled = parts.len() > 1 && parse_unsigned_s(trim_s(parts[1]), 255) == Some(1nat);
        if enabled && name.len() > 0 && !is_check_in_id(name) {
            Some(name)
        } else {
            None
        }
    }
}

/// The offered actions of the menu lines, in order.
pub open spec fn menu_actions_s(ls: Seq<Seq<char>>) -> Seq<Seq<char>>
    decreases ls.len(),
{
    if ls.len() == 0 {
        Seq::empty()
    } else {
        let rest = menu_actions_s(ls.drop_last());
        match menu_entry_s(ls.last()) {
            Some(n) => rest.push(n),
            None => rest,
        }
    }
}

fn menu_entry(line: &str) -> (r: Option<String>)
    ensures
        match r {
            Some(n) => menu_entry_s(line@) == Some(n@),
            None => menu_entry_s(line@) is None,
        },
{
    let t = trim(line);
    let ts = t.as_str();
    if str_eq(ts, "SCM_UNAVAILABLE") || ts.is_empty() || starts_with(ts, "ERROR") {
        return None;
    }
    let parts = splitn(ts, 2, '|');
    proof {
        lemma_splitn_nonempty(t@, 2, '|');
    }
    let name = trim(parts[0].as_str());
    let enabled = parts.len() > 1 && match parse_unsigned(trim(parts[1].as_str()).as_str(), 255) {
        Some(n) => n == 1,
        None => false,
    };
    if enabled && !name.as_str().is_empty() && !is_check_in_id_exec(name.as_str()) {
        Some(name)
    } else {
        None
    }
}

/// The actions the menu probe's output offers (check-in never among them).
pub fn scm_menu_actions(raw: &str) -> (r: Vec<String>)
    ensures
        views(r@) == menu_actions_s(lines_s(raw@)),
{
    let ls = lines(raw);
    let ghost lv = lines_s(raw@);
    let mut out: Vec<String> = Vec::new();
    let mut i: usize = 0;
    while i < ls.len()
        invariant
            views(ls@) == lv,
            0 <= i <= ls@.len(),
            views(out@) == menu_actions_s(lv.take(i as int)),
        decreases ls.len() - i,
    {
        let e = menu_entry(ls[i].as_str());
        proof {
            assert(lv.take(i + 1).drop_last() == lv.take(i as int));
            assert(lv.take(i + 1).last() == ls@[i as int]@);
        }
        match e {
            Some(n) => {
                out.push(n);
                proof {
                    assert(views(out@) == menu_actions_s(lv.take(i + 1)));
                }
            },
            None => {},
        }
        i = i + 1;
    }
    proof {
        assert(lv.take(ls@.len() as int) == lv);
    }
    out
}

/// How a source-control call is answered.
pub enum ScmReply {
    /// `{"success": false, "error_code", "error"}`
    Failed { error_code: String, error: String },
    /// The answer of `action=status`.
    Status(ScmStatusAnswer),
    /// `{"success": true, "document", "actions": [{"id", "label", "enabled": true}]}`
    Menu { document: String, actions: Vec<String> },
    /// `{"success": true, "document", "editable": true}`
    CheckedOut { document: String },
    /// `{"success": true, "document", "action_id"}`
    Done { document: String, action_id: String },
    /// `{"success": false, "elicitation_required": true, "elicitation_id", "message",
    /// "options": ["yes", "no"]}`
    Confirm { elicitation_id: String, message: String },
    /// `{"success": false, "elicitation_required": true, "elicitation_id", "message",
    /// "input_type": "text"}`
    Prompt { elicitation_id: String, message: String },
}

/// What a snippet's output is read as.
pub enum ScmStage {
    /// The `AfterUserAction` run that answers a pending dialog.
    Resume { document: String, action_id: String },
    Status,
    Menu { document: String },
    CheckOut { document: String, namespace: String },
    Execute { document: String, action_id: String, namespace: String },
}

/// The next step of a source-control call.
pub enum ScmStep {
    /// Answer at once.
    Reply(ScmReply),
    /// Run `code` in `namespace`, then read its output as `stage` says.
    Run { code: String, namespace: String, stage: ScmStage },
}

/// A failure with the given code and message.
pub open spec fn is_failure(r: ScmReply, code: Seq<char>, msg: Seq<char>) -> bool {
    r matches ScmReply::Failed { error_code, error } && error_code@ == code && error@ == msg
}

fn failed(code: &str, msg: &str) -> (r: ScmReply)
    ensures
        is_failure(r, code@, msg@),
{
    ScmReply::Failed { error_code: String::from_str(code), error: String::from_str(msg) }
}

fn opt_str(o: &Option<String>) -> (r: &str)
    ensures
        r@ == match o {
            Some(s) => s@,
            None => Seq::<char>::empty(),
        },
{
    match o {
        Some(s) => s.as_str(),
        None => {
            proof {
                reveal_strlit("");
            }
            ""
        },
    }
}

/// The text of an optional string, empty when absent.
pub open spec fn opt_text(o: Option<String>) -> Seq<char> {
    match o {
        Some(s) => s@,
        None => Seq::empty(),
    }
}

/// The message for an unknown action.
pub open spec fn unknown_action_msg_s(action: Seq<char>) -> Seq<char> {
    "Unknown action='"@ + action + "'. Use: status, menu, checkout, execute"@
}

/// Whether the step runs `code` in `ns`.
pub open spec fn runs(r: ScmStep, code: Seq<char>, ns: Seq<char>) -> bool {
    match r {
        ScmStep::Run { code: c, namespace: n, .. } => c@ == code && n@ == ns,
        _ => false,
    }
}

/// The stage of a step that runs a snippet.
pub open spec fn run_stage(r: ScmStep) -> ScmStage
    recommends
        r is Run,
{
    match r {
        ScmStep::Run { stage, .. } => stage,
        _ => ScmStage::Status,
    }
}

/// Whether the step answers at once with the given failure.
pub open spec fn replies_failure(r: ScmStep, code: Seq<char>, msg: Seq<char>) -> bool {
    match r {
        ScmStep::Reply(rep) => is_failure(rep, code, msg),
        _ => false,
    }
}

pub open spec fn is_resume_stage(s: ScmStage, doc: Seq<char>, aid: Seq<char>) -> bool {
    match s {
        ScmStage::Resume { document, action_id } => document@ == doc && action_id@ == aid,
        _ => false,
    }
}

pub open spec fn is_menu_stage(s: ScmStage, doc: Seq<char>) -> bool {
    match s {
        ScmStage::Menu { document } => document@ == doc,
        _ => false,
    }
}

pub open spec fn is_checkout_stage(s: ScmStage, doc: Seq<char>, ns: Seq<char>) -> bool {
    match s {
        ScmStage::CheckOut { document, namespace } => document@ == doc && namespace@ == ns,
        _ => false,
    }
}

pub open spec fn is_execute_stage(s: ScmStage, doc: Seq<char>, aid: Seq<char>, ns: Seq<char>) -> bool {
    match s {
        ScmStage::Execute { document, action_id, namespace } => document@ == doc && action_id@
            == aid && namespace@ == ns,
        _ => false,
    }
}

/// The first step of a source-control call, with the store's entries `before`
/// and `after` and the clock at `now`. An answer to a pending dialog
/// (`elicitation_id` and `answer` both given) takes the dialog out of the
/// store, whatever happens next: `ELICITATION_EXPIRED` when no live dialog is
/// found at `now`, else the follow-up code of the stored action. Otherwise
/// `action` decides, and the store is left alone.
pub open spec fn scm_begin_is(
    p: ScmParams,
    before: Map<Seq<char>, PendingElicitation>,
    after: Map<Seq<char>, PendingElicitation>,
    username: Seq<char>,
    password: Seq<char>,
    now: u64,
    r: ScmStep,
) -> bool {
    let doc = normalize_scm_document_s(opt_text(p.document));
    let ns = p.namespace@;
    if p.elicitation_id is Some && p.answer is Some {
        let eid = p.elicitation_id->0@;
        &&& after == before.remove(eid)
        &&& match lookup_s(before, eid, now).0 {
            None => replies_failure(
                r,
                "ELICITATION_EXPIRED"@,
                "Elicitation session expired or not found"@,
            ),
            Some(e) => runs(
                r,
                after_user_action_code_s(
                    opt_text(e.scm_action_id),
                    e.document@,
                    p.answer->0@,
                    username,
                    password,
                ),
                e.namespace@,
            ) && is_resume_stage(run_stage(r), e.document@, opt_text(e.scm_action_id)),
        }
    } else {
        &&& after == before
        &&& if p.action@ == "status"@ {
            runs(r, status_check_code_s(doc, username, password), ns) && run_stage(r) is Status
        } else if p.action@ == "menu"@ {
            runs(r, menu_all_items_code_s(doc, username, password), ns) && is_menu_stage(
                run_stage(r),
                doc,
            )
        } else if p.action@ == "checkout"@ {
            runs(r, user_action_code_s("%CheckOut"@, doc, username, password), ns)
                && is_checkout_stage(run_stage(r), doc, ns)
        } else if p.action@ == "execute"@ {
            let aid = opt_text(p.action_id);
            if is_check_in_id(aid) {
                replies_failure(r, "BLOCKED"@, "CheckIn is not allowed"@)
            } else {
                runs(r, user_action_code_s(aid, doc, username, password), ns) && is_execute_stage(
                    run_stage(r),
                    doc,
                    aid,
                    ns,
                )
            }
        } else {
            replies_failure(r, "INVALID_PARAM"@, unknown_action_msg_s(p.action@))
        }
    }
}

/// The first step of a source-control call: `scm_begin_at` at the time read
/// from the store's clock.
pub fn scm_begin(p: &ScmParams, store: &mut ElicitationStore, username: &str, password: &str) -> (r:
    ScmStep)
    ensures
        exists|t: u64| #[trigger] scm_begin_is(*p, old(store)@, final(store)@, username@, password@, t, r),
        p.elicitation_id is Some && p.answer is Some && !old(store)@.contains_key(p.elicitation_id->0@)
            ==> replies_failure(
            r,
            "ELICITATION_EXPIRED"@,
            "Elicitation session expired or not found"@,
        ),
{
    let now = store.now();
    let r = scm_begin_at(p, store, username, password, now);
    assert(scm_begin_is(*p, old(store)@, store@, username@, password@, now, r));
    r
}

/// The first step of a source-control call at time `now` (see
/// `scm_begin_is`).
pub fn scm_begin_at(
    p: &ScmParams,
    store: &mut ElicitationStore,
    username: &str,
    password: &str,
    now: u64,
) -> (r: ScmStep)
    ensures
        scm_begin_is(*p, old(store)@, final(store)@, username@, password@, now, r),
{
    let doc = normalize_scm_document(opt_str(&p.document));
    let ns = p.namespace.as_str();
    match (&p.elicitation_id, &p.answer) {
        (Some(eid), Some(answer)) => {
            match store.take_at(eid.as_str(), now) {
                None => {
                    return ScmStep::Reply(
                        failed("ELICITATION_EXPIRED", "Elicitation session expired or not found"),
                    );
                },
                Some(pending) => {
                    let action_id = String::from_str(opt_str(&pending.scm_action_id));
                    let code = after_user_action_code(
                        action_id.as_str(),
                        pending.document.as_str(),
                        answer.as_str(),
                        username,
                        password,
                    );
                    return ScmStep::Run {
                        code,
                        namespace: pending.namespace,
                        stage: ScmStage::Resume { document: pending.document, action_id },
                    };
                },
            }
        },
        _ => {},
    }
    let action = p.action.as_str();
    if str_eq(action, "status") {
        ScmStep::Run {
            code: status_check_code(doc.as_str(), username, password),
            namespace: String::from_str(ns),
            stage: ScmStage::Status,
        }
    } else if str_eq(action, "menu") {
        ScmStep::Run {
            code: menu_all_items_code(doc.as_str(), username, password),
            namespace: String::from_str(ns),
            stage: ScmStage::Menu { document: doc },
        }
    } else if str_eq(action, "checkout") {
        ScmStep::Run {
            code: user_action_code("%CheckOut", doc.as_str(), username, password),
            namespace: String::from_str(ns),
            stage: ScmStage::CheckOut { document: doc, namespace: String::from_str(ns) },
        }
    } else if str_eq(action, "execute") {
        let aid = opt_str(&p.action_id);
        if is_check_in_id_exec(aid) {
            ScmStep::Reply(failed("BLOCKED", "CheckIn is not allowed"))
        } else {
            ScmStep::Run {
                code: user_action_code(aid, doc.as_str(), username, password),
                namespace: String::from_str(ns),
                stage: ScmStage::Execute {
                    document: doc,
                    action_id: String::from_str(aid),
                    namespace: String::from_str(ns),
                },
            }
        }
    } else {
        let mut msg = String::from_str("Unknown action='");
        msg.append(action);
        msg.append("'. Use: status, menu, checkout, execute");
        ScmStep::Reply(ScmReply::Failed { error_code: String::from_str("INVALID_PARAM"), error: msg })
    }
}

/// The message shown for the docker requirement.
pub const DOCKER_REQUIRED_MSG: &'static str = "SCM operations require docker exec. Set IRIS_CONTAINER=<container_name>.";

/// `msg`, or `dflt` when `msg` is empty.
pub open spec fn or_default(msg: Seq<char>, dflt: Seq<char>) -> Seq<char> {
    if msg.len() == 0 {
        dflt
    } else {
        msg
    }
}

/// The elicitation id a dialog answer carries (empty for other answers).
pub open spec fn reply_eid(r: ScmReply) -> Seq<char> {
    match r {
        ScmReply::Confirm { elicitation_id, .. } => elicitation_id@,
        ScmReply::Prompt { elicitation_id, .. } => elicitation_id@,
        _ => Seq::empty(),
    }
}

/// Whether `r` asks for a yes/no answer with `msg`.
pub open spec fn is_confirm(r: ScmReply, msg: Seq<char>) -> bool {
    match r {
        ScmReply::Confirm { message, .. } => message@ == msg,
        _ => false,
    }
}

/// Whether `r` asks for a text answer with `msg`.
pub open spec fn is_prompt(r: ScmReply, msg: Seq<char>) -> bool {
    match r {
        ScmReply::Prompt { message, .. } => message@ == msg,
        _ => false,
    }
}

/// Whether `r` reports the action done on the document.
pub open spec fn is_done(r: ScmReply, doc: Seq<char>, aid: Seq<char>) -> bool {
    match r {
        ScmReply::Done { document, action_id } => document@ == doc && action_id@ == aid,
        _ => false,
    }
}

/// Whether `r` reports the document checked out and editable.
pub open spec fn is_checked_out(r: ScmReply, doc: Seq<char>) -> bool {
    match r {
        ScmReply::CheckedOut { document } => document@ == doc,
        _ => false,
    }
}

/// `new` is `old` with a fresh source-control dialog stored under `eid`.
pub open spec fn stored_dialog(
    old: Map<Seq<char>, PendingElicitation>,
    new: Map<Seq<char>, PendingElicitation>,
    eid: Seq<char>,
    doc: Seq<char>,
    aid: Seq<char>,
    ns: Seq<char>,
) -> bool {
    &&& is_hyphenated_uuid(eid)
    &&& new == old.insert(eid, new[eid])
    &&& new[eid].id@ == eid
    &&& new[eid].document@ == doc
    &&& new[eid].action == ElicitationAction::ScmExecute
    &&& new[eid].content is None
    &&& new[eid].scm_action_id is Some
    &&& opt_text(new[eid].scm_action_id) == aid
    &&& new[eid].namespace@ == ns
}

/// The message for an action code `UserAction` should not give.
pub open spec fn unexpected_code_msg_s(code: u8) -> Seq<char> {
    "Unexpected action code "@ + digits_s(code as nat) + " from UserAction"@
}

fn store_dialog(store: &mut ElicitationStore, doc: &str, aid: &str, ns: &str) -> (eid: String)
    ensures
        stored_dialog(old(store)@, final(store)@, eid@, doc@, aid@, ns@),
{
    store.insert(doc, ElicitationAction::ScmExecute, None, Some(String::from_str(aid)), ns)
}

fn msg_or(msg: String, dflt: String) -> (r: String)
    ensures
        r@ == or_default(msg@, dflt@),
{
    if msg.as_str().is_empty() {
        dflt
    } else {
        msg
    }
}

/// Read a snippet's output (`Ok`) or the failure to run it (`Err`, its
/// message) as `stage` says, storing a dialog when `UserAction` asks for an
/// answer.
pub fn scm_finish(
    stage: ScmStage,
    outcome: Result<String, String>,
    store: &mut ElicitationStore,
    username: &str,
) -> (r: ScmReply)
    ensures
        match stage {
            ScmStage::Resume { document, action_id } => final(store)@ == old(store)@ && match outcome {
                Err(e) => if e@ == "DOCKER_REQUIRED"@ {
                    is_failure(r, "DOCKER_REQUIRED"@, DOCKER_REQUIRED_MSG@)
                } else {
                    is_failure(r, "SCM_UNAVAILABLE"@, e@)
                },
                Ok(out) => if first_line_s(out@).len() == 0 {
                    is_done(r, document@, action_id@)
                } else {
                    is_failure(r, "SCM_ERROR"@, first_line_s(out@))
                },
            },
            ScmStage::Status => final(store)@ == old(store)@ && match outcome {
                Err(e) => is_failure(r, "SCM_UNAVAILABLE"@, e@),
                Ok(raw) => r matches ScmReply::Status(a) && is_status_answer(raw@, username@, a),
            },
            ScmStage::Menu { document } => r matches ScmReply::Menu { document: d, actions }
                && d@ == document@ && views(actions@) == menu_actions_s(
                lines_s(
                    match outcome {
                        Ok(raw) => raw@,
                        Err(_) => Seq::empty(),
                    },
                ),
            ) && final(store)@ == old(store)@,
            ScmStage::CheckOut { document, namespace } => match outcome {
                Err(e) => is_failure(r, "SCM_UNAVAILABLE"@, e@) && final(store)@ == old(store)@,
                Ok(raw) => {
                    let out = first_line_s(raw@);
                    if out == "SCM_UNAVAILABLE"@ {
                        is_failure(
                            r,
                            "SCM_UNAVAILABLE"@,
                            "Source control session could not be initialized"@,
                        ) && final(store)@ == old(store)@
                    } else if action_code_s(out) == 0 {
                        is_checked_out(r, document@) && final(store)@ == old(store)@
                    } else {
                        is_confirm(r, or_default(action_msg_s(out), "Check out "@ + document@ + " ?"@))
                            && stored_dialog(
                            old(store)@,
                            final(store)@,
                            reply_eid(r),
                            document@,
                            "%CheckOut"@,
                            namespace@,
                        )
                    }
                },
            },
            ScmStage::Execute { document, action_id, namespace } => match outcome {
                Err(e) => is_failure(r, "SCM_UNAVAILABLE"@, e@) && final(store)@ == old(store)@,
                Ok(raw) => {
                    let out = first_line_s(raw@);
                    let code = action_code_s(out);
                    let msg = action_msg_s(out);
                    if out == "SCM_UNAVAILABLE"@ {
                        is_failure(
                            r,
                            "SCM_UNAVAILABLE"@,
                            "Source control session could not be initialized"@,
                        ) && final(store)@ == old(store)@
                    } else if code == 0 {
                        is_done(r, document@, action_id@) && final(store)@ == old(store)@
                    } else if code == 1 {
                        is_confirm(
                            r,
                            or_default(msg, "Execute "@ + action_id@ + " on "@ + document@ + "?"@),
                        ) && stored_dialog(
                            old(store)@,
                            final(store)@,
                            reply_eid(r),
                            document@,
                            action_id@,
                            namespace@,
                        )
                    } else if code == 7 {
                        is_prompt(r, or_default(msg, "Enter value for "@ + action_id@ + ":"@))
                            && stored_dialog(
                            old(store)@,
                            final(store)@,
                            reply_eid(r),
                            document@,
                            action_id@,
                            namespace@,
                        )
                    } else {
                        is_failure(r, "SCM_ERROR"@, unexpected_code_msg_s(code)) && final(store)@
                            == old(store)@
                    }
                },
            },
        },
{
    match stage {
        ScmStage::Resume { document, action_id } => match outcome {
            Err(e) => {
                if str_eq(e.as_str(), "DOCKER_REQUIRED") {
                    failed("DOCKER_REQUIRED", DOCKER_REQUIRED_MSG)
                } else {
                    ScmReply::Failed { error_code: String::from_str("SCM_UNAVAILABLE"), error: e }
                }
            },
            Ok(out) => {
                let first = first_line(out.as_str());
                if first.as_str().is_empty() {
                    ScmReply::Done { document, action_id }
                } else {
                    ScmReply::Failed { error_code: String::from_str("SCM_ERROR"), error: first }
                }
            },
        },
        ScmStage::Status => match outcome {
            Err(e) => ScmReply::Failed { error_code: String::from_str("SCM_UNAVAILABLE"), error: e },
            Ok(raw) => ScmReply::Status(scm_status_answer(raw.as_str(), username)),
        },
        ScmStage::Menu { document } => {
            let raw = match outcome {
                Ok(raw) => raw,
                Err(_) => String::new(),
            };
            ScmReply::Menu { document, actions: scm_menu_actions(raw.as_str()) }
        },
        ScmStage::CheckOut { document, namespace } => match outcome {
            Err(e) => ScmReply::Failed { error_code: String::from_str("SCM_UNAVAILABLE"), error: e },
            Ok(raw) => {
                let out = first_line(raw.as_str());
                if str_eq(out.as_str(), "SCM_UNAVAILABLE") {
                    return failed(
                        "SCM_UNAVAILABLE",
                        "Source control session could not be initialized",
                    );
                }
                let (code, msg) = parse_action_msg(out.as_str());
                if code == 0 {
                    return ScmReply::CheckedOut { document };
                }
                let eid = store_dialog(store, document.as_str(), "%CheckOut", namespace.as_str());
                let mut dflt = String::from_str("Check out ");
                dflt.append(document.as_str());
                dflt.append(" ?");
                ScmReply::Confirm { elicitation_id: eid, message: msg_or(msg, dflt) }
            },
        },
        ScmStage::Execute { document, action_id, namespace } => match outcome {
            Err(e) => ScmReply::Failed { error_code: String::from_str("SCM_UNAVAILABLE"), error: e },
            Ok(raw) => {
                let out = first_line(raw.as_str());
                if str_eq(out.as_str(), "SCM_UNAVAILABLE") {
                    return failed(
                        "SCM_UNAVAILABLE",
                        "Source control session could not be initialized",
                    );
                }
                let (code, msg) = parse_action_msg(out.as_str());
                if code == 0 {
                    ScmReply::Done { document, action_id }
                } else if code == 1 {
                    let eid = store_dialog(
                        store,
                        document.as_str(),
                        action_id.as_str(),
                        namespace.as_str(),
                    );
                    let mut dflt = String::from_str("Execute ");
                    dflt.append(action_id.as_str());
                    dflt.append(" on ");
                    dflt.append(document.as_str());
                    dflt.append("?");
                    ScmReply::Confirm { elicitation_id: eid, message: msg_or(msg, dflt) }
                } else if code == 7 {
                    let eid = store_dialog(
                        store,
                        document.as_str(),
                        action_id.as_str(),
                        namespace.as_str(),
                    );
                    let mut dflt = String::from_str("Enter value for ");
                    dflt.append(action_id.as_str());
                    dflt.append(":");
                    ScmReply::Prompt { elicitation_id: eid, message: msg_or(msg, dflt) }
                } else {
                    let mut m = String::from_str("Unexpected action code ");
                    let digits = u64_to_string(code as u64);
                    m.append(digits.as_str());
                    m.append(" from UserAction");
                    ScmReply::Failed { error_code: String::from_str("SCM_ERROR"), error: m }
                }
            },
        },
    }
}

} // verus!

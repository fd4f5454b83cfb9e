//! Environment variables of the user or of the machine, and which of them look like
//! secrets.

use vstd::prelude::*;
use crate::json::{JsonValue, array_items, as_array, s, str_field};
use crate::text::{
    has_sub, trim, unicode_upper, escape_quotes, chars_of, contains_chars, contains_char,
    trim_string, to_upper, text_eq, escape_single_quotes,
};
use crate::util::{ActionResult, Output, Step, powershell, answers, answer};

verus! {

/// One environment variable as listed to the user.
pub struct EnvVar {
    pub name: String,
    pub value: String,
    pub scope: String,
    pub suspicious: bool,
}

/// An environment variable as plain values.
pub ghost struct EnvVarView {
    pub name: Seq<char>,
    pub value: Seq<char>,
    pub scope: Seq<char>,
    pub suspicious: bool,
}

impl View for EnvVar {
    type V = EnvVarView;

    open spec fn view(&self) -> EnvVarView {
        EnvVarView {
            name: self.name@,
            value: self.value@,
            scope: self.scope@,
            suspicious: self.suspicious,
        }
    }
}

/// The PowerShell name of a scope: "machine" is the machine's, anything else the user's.
pub open spec fn ps_scope_spec(scope: Seq<char>) -> Seq<char> {
    if scope == "machine"@ {
        "Machine"@
    } else {
        "User"@
    }
}

/// The PowerShell name of `scope`.
pub fn ps_scope(scope: &str) -> (r: &'static str)
    ensures
        r@ == ps_scope_spec(scope@),
{
    if text_eq(scope, "machine") {
        "Machine"
    } else {
        "User"
    }
}

/// The words that make a variable's name look like a secret.
pub open spec fn needle(k: int) -> Seq<char> {
    if k == 0 {
        "TOKEN"@
    } else if k == 1 {
        "SECRET"@
    } else if k == 2 {
        "PASSWORD"@
    } else if k == 3 {
        "PWD"@
    } else if k == 4 {
        "APIKEY"@
    } else if k == 5 {
        "API_KEY"@
    } else if k == 6 {
        "CREDENTIAL"@
    } else if k == 7 {
        "AUTH"@
    } else if k == 8 {
        "ACCESS_KEY"@
    } else if k == 9 {
        "PRIVATE"@
    } else {
        "_KEY"@
    }
}

/// How many words `needle` lists.
pub open spec fn needle_count() -> int {
    11
}

fn needle_str(k: usize) -> (r: &'static str)
    requires
        k < 11,
    ensures
        r@ == needle(k as int),
{
    if k == 0 {
        "TOKEN"
    } else if k == 1 {
        "SECRET"
    } else if k == 2 {
        "PASSWORD"
    } else if k == 3 {
        "PWD"
    } else if k == 4 {
        "APIKEY"
    } else if k == 5 {
        "API_KEY"
    } else if k == 6 {
        "CREDENTIAL"
    } else if k == 7 {
        "AUTH"
    } else if k == 8 {
        "ACCESS_KEY"
    } else if k == 9 {
        "PRIVATE"
    } else {
        "_KEY"
    }
}

/// Whether the upper-cased name holds one of the words of `needle`.
pub open spec fn name_looks_secret(name: Seq<char>) -> bool {
    exists|k: int| 0 <= k < needle_count() && has_sub(unicode_upper(name), #[trigger] needle(k))
}

/// A variable is flagged exactly when its upper-cased name holds one of the eleven words
/// TOKEN, SECRET, PASSWORD, PWD, APIKEY, API_KEY, CREDENTIAL, AUTH, ACCESS_KEY, PRIVATE
/// or _KEY, or when its value looks like a token.
pub proof fn secret_words_flag_the_name(name: Seq<char>, value: Seq<char>)
    ensures
        suspicious_spec(name, value) <==> ({
            let u = unicode_upper(name);
            ||| has_sub(u, "TOKEN"@)
            ||| has_sub(u, "SECRET"@)
            ||| has_sub(u, "PASSWORD"@)
            ||| has_sub(u, "PWD"@)
            ||| has_sub(u, "APIKEY"@)
            ||| has_sub(u, "API_KEY"@)
            ||| has_sub(u, "CREDENTIAL"@)
            ||| has_sub(u, "AUTH"@)
            ||| has_sub(u, "ACCESS_KEY"@)
            ||| has_sub(u, "PRIVATE"@)
            ||| has_sub(u, "_KEY"@)
            ||| value_looks_secret(value)
        }),
{
    let u = unicode_upper(name);
    assert(needle(0) == "TOKEN"@);
    assert(needle(1) == "SECRET"@);
    assert(needle(2) == "PASSWORD"@);
    assert(needle(3) == "PWD"@);
    assert(needle(4) == "APIKEY"@);
    assert(needle(5) == "API_KEY"@);
    assert(needle(6) == "CREDENTIAL"@);
    assert(needle(7) == "AUTH"@);
    assert(needle(8) == "ACCESS_KEY"@);
    assert(needle(9) == "PRIVATE"@);
    assert(needle(10) == "_KEY"@);
    if name_looks_secret(name) {
        let k = choose|k: int| 0 <= k < needle_count() && has_sub(u, #[trigger] needle(k));
        assert(0 <= k < 11);
    }
}

/// The characters that base64 and hex tokens are made of.
pub open spec fn token_char(c: char) -> bool {
    ||| ('0' <= c && c <= '9')
    ||| ('a' <= c && c <= 'z')
    ||| ('A' <= c && c <= 'Z')
    ||| c == '+' || c == '=' || c == '/' || c == '_' || c == '-'
}

/// How many characters of `v` are token characters.
pub open spec fn token_chars(v: Seq<char>) -> nat {
    v.filter(|c: char| token_char(c)).len()
}

/// The number of bytes of `c` in UTF-8 (`char::len_utf8`).
pub open spec fn char_utf8_len(c: char) -> nat {
    let u = c as u32;
    if u < 0x80 {
        1
    } else if u < 0x800 {
        2
    } else if u < 0x10000 {
        3
    } else {
        4
    }
}

/// The number of bytes of `s` in UTF-8 (`str::len`).
pub open spec fn utf8_len(s: Seq<char>) -> nat
    decreases s.len(),
{
    if s.len() == 0 {
        0
    } else {
        utf8_len(s.drop_last()) + char_utf8_len(s.last())
    }
}

/// The UTF-8 length of the characters `v`.
fn utf8_len_of(v: &Vec<char>) -> (n: u128)
    ensures
        n == utf8_len(v@),
        n <= 4 * v@.len(),
{
    let mut n: u128 = 0;
    let mut i: usize = 0;
    while i < v.len()
        invariant
            i <= v@.len(),
            n == utf8_len(v@.take(i as int)),
            n <= 4 * i,
        decreases v@.len() - i,
    {
        assert(v@.take(i + 1).drop_last() =~= v@.take(i as int));
        let u = v[i] as u32;
        let w: u128 = if u < 0x80 {
            1
        } else if u < 0x800 {
            2
        } else if u < 0x10000 {
            3
        } else {
            4
        };
        n = n + w;
        i = i + 1;
    }
    assert(v@.take(v@.len() as int) =~= v@);
    n
}

/// Whether a value looks like a token: once trimmed, at least 24 bytes long in UTF-8,
/// without spaces, backslashes or slashes, and made of token characters for more than
/// 95 per cent of its length in bytes.
pub open spec fn value_looks_secret(value: Seq<char>) -> bool {
    let v = trim(value);
    let len = utf8_len(v);
    &&& len >= 24
    &&& !v.contains(' ')
    &&& !v.contains('\\')
    &&& !v.contains('/')
    &&& 20 * token_chars(v) > 19 * len
}

proof fn lemma_ascii_utf8_len(v: Seq<char>)
    requires
        forall|i: int| 0 <= i < v.len() ==> (#[trigger] v[i] as u32) < 0x80,
    ensures
        utf8_len(v) == v.len(),
    decreases v.len(),
{
    if v.len() > 0 {
        assert forall|i: int| 0 <= i < v.drop_last().len() implies (#[trigger] v.drop_last()[i]
            as u32) < 0x80 by {
            assert(v.drop_last()[i] == v[i]);
        }
        lemma_ascii_utf8_len(v.drop_last());
        assert(v.last() == v[v.len() - 1]);
    }
}

proof fn lemma_all_token_chars(v: Seq<char>)
    requires
        forall|i: int| 0 <= i < v.len() ==> token_char(#[trigger] v[i]),
    ensures
        token_chars(v) == v.len(),
    decreases v.len(),
{
    reveal(Seq::filter);
    if v.len() > 0 {
        assert forall|i: int| 0 <= i < v.drop_last().len() implies token_char(
            #[trigger] v.drop_last()[i],
        ) by {
            assert(v.drop_last()[i] == v[i]);
        }
        lemma_all_token_chars(v.drop_last());
        assert(v.last() == v[v.len() - 1]);
    }
}

/// What the value alone decides, once trimmed: fewer than 24 bytes, or a space, a
/// backslash or a slash, never flag it; 24 or more ASCII letters and digits always do.
pub proof fn token_like_values_are_flagged(value: Seq<char>)
    ensures
        utf8_len(trim(value)) < 24 ==> !value_looks_secret(value),
        trim(value).contains(' ') ==> !value_looks_secret(value),
        trim(value).contains('\\') ==> !value_looks_secret(value),
        trim(value).contains('/') ==> !value_looks_secret(value),
        ({
            let v = trim(value);
            v.len() >= 24 && forall|i: int|
                0 <= i < v.len() ==> {
                    let c = #[trigger] v[i];
                    ('0' <= c && c <= '9') || ('a' <= c && c <= 'z') || ('A' <= c && c <= 'Z')
                }
        }) ==> value_looks_secret(value),
{
    let v = trim(value);
    if v.len() >= 24 && forall|i: int|
        0 <= i < v.len() ==> {
            let c = #[trigger] v[i];
            ('0' <= c && c <= '9') || ('a' <= c && c <= 'z') || ('A' <= c && c <= 'Z')
        } {
        assert forall|i: int| 0 <= i < v.len() implies (#[trigger] v[i] as u32) < 0x80 by {
            let c = v[i];
            assert(('0' <= c && c <= '9') || ('a' <= c && c <= 'z') || ('A' <= c && c <= 'Z'));
        }
        lemma_ascii_utf8_len(v);
        lemma_all_token_chars(v);
        assert(!v.contains(' ')) by {
            if v.contains(' ') {
                let j = choose|j: int| 0 <= j < v.len() && v[j] == ' ';
                assert(v[j] == ' ');
            }
        }
        assert(!v.contains('\\')) by {
            if v.contains('\\') {
                let j = choose|j: int| 0 <= j < v.len() && v[j] == '\\';
                assert(v[j] == '\\');
            }
        }
        assert(!v.contains('/')) by {
            if v.contains('/') {
                let j = choose|j: int| 0 <= j < v.len() && v[j] == '/';
                assert(v[j] == '/');
            }
        }
    }
}

/// The heuristic that flags a variable as a probable secret.
pub open spec fn suspicious_spec(name: Seq<char>, value: Seq<char>) -> bool {
    name_looks_secret(name) || value_looks_secret(value)
}

fn is_token_char(c: char) -> (r: bool)
    ensures
        r == token_char(c),
{
    ('0' <= c && c <= '9') || ('a' <= c && c <= 'z') || ('A' <= c && c <= 'Z') || c == '+' || c
        == '=' || c == '/' || c == '_' || c == '-'
}

/// Counts the token characters of `v`.
fn count_token_chars(v: &Vec<char>) -> (n: usize)
    ensures
        n == token_chars(v@),
{
    let mut n: usize = 0;
    let mut i: usize = 0;
    while i < v.len()
        invariant
            i <= v@.len(),
            n == token_chars(v@.take(i as int)),
            n <= i,
        decreases v@.len() - i,
    {
        proof {
            assert(v@.take(i + 1).drop_last() =~= v@.take(i as int));
            reveal(Seq::filter);
        }
        if is_token_char(v[i]) {
            n = n + 1;
        }
        i = i + 1;
    }
    assert(v@.take(v@.len() as int) =~= v@);
    n
}

/// Whether a variable looks like it holds a token, key or password.
pub fn looks_suspicious(name: &str, value: &str) -> (r: bool)
    ensures
        r == suspicious_spec(name@, value@),
{
    let upper = to_upper(name);
    let n = chars_of(upper.as_str());
    let mut k: usize = 0;
    while k < 11
        invariant
            k <= 11,
            n@ == unicode_upper(name@),
            forall|j: int| 0 <= j < k ==> !has_sub(n@, #[trigger] needle(j)),
        decreases 11 - k,
    {
        if contains_chars(&n, &chars_of(needle_str(k))) {
            return true;
        }
        k = k + 1;
    }
    let trimmed = trim_string(value);
    let v = chars_of(trimmed.as_str());
    let len = utf8_len_of(&v);
    assert(len <= 4 * (v.len() as u128));
    if len >= 24 && !contains_char(&v, ' ') && !contains_char(&v, '\\') && !contains_char(&v, '/') {
        let count = count_token_chars(&v);
        if 20 * (count as u128) > 19 * len {
            return true;
        }
    }
    false
}

/// One listed variable from a JSON row with its `name` and `value`.
pub open spec fn env_row(scope: Seq<char>, row: JsonValue) -> EnvVarView {
    let name = str_field(row, "name"@);
    let value = str_field(row, "value"@);
    EnvVarView { name, value, scope, suspicious: suspicious_spec(name, value) }
}

/// The variables listed from the rows of a script's answer: rows without a name are
/// left out.
pub open spec fn env_list(scope: Seq<char>, rows: Seq<JsonValue>) -> Seq<EnvVarView> {
    rows.map_values(|row: JsonValue| env_row(scope, row)).filter(
        |e: EnvVarView| e.name.len() > 0,
    )
}

/// The script that lists the variables of a scope as JSON, sorted by name.
pub open spec fn list_env_script(scope: Seq<char>) -> Seq<char> {
    "@([Environment]::GetEnvironmentVariables('"@ + ps_scope_spec(scope)
        + "').GetEnumerator() | ForEach-Object { [pscustomobject]@{ name = [string]$_.Key; value = [string]$_.Value } }) | Sort-Object name | ConvertTo-Json -Depth 3"@
}

/// The script to run for `list_env_vars_impl`.
pub fn list_env_vars_script(scope: &str) -> (r: String)
    ensures
        r@ == list_env_script(scope@),
{
    let mut r = String::from_str("@([Environment]::GetEnvironmentVariables('");
    r.append(ps_scope(scope));
    r.append(
        "').GetEnumerator() | ForEach-Object { [pscustomobject]@{ name = [string]$_.Key; value = [string]$_.Value } }) | Sort-Object name | ConvertTo-Json -Depth 3",
    );
    r
}

/// The variables of `scope` from the JSON that `list_env_vars_script` printed.
pub fn list_env_vars_impl(scope: String, json: JsonValue) -> (r: Vec<EnvVar>)
    ensures
        r@.map_values(|e: EnvVar| e@) == env_list(scope@, array_items(json)),
{
    let rows = as_array(json);
    let mut out: Vec<EnvVar> = Vec::new();
    let mut i: usize = 0;
    while i < rows.len()
        invariant
            i <= rows@.len(),
            out@.map_values(|e: EnvVar| e@) == env_list(scope@, rows@.take(i as int)),
        decreases rows@.len() - i,
    {
        let name = s(&rows[i], "name");
        let value = s(&rows[i], "value");
        let suspicious = looks_suspicious(name.as_str(), value.as_str());
        let keep = name.as_str().unicode_len() > 0;
        proof {
            let f = |row: JsonValue| env_row(scope@, row);
            assert(rows@.take(i + 1).map_values(f).drop_last() =~= rows@.take(i as int).map_values(
                f,
            ));
            assert(rows@.take(i + 1).map_values(f).last() == env_row(scope@, rows@[i as int]));
            reveal(Seq::filter);
        }
        if keep {
            let ghost before = out@;
            out.push(EnvVar { name, value, scope: scope.clone(), suspicious });
            assert(out@.map_values(|e: EnvVar| e@) =~= before.map_values(|e: EnvVar| e@).push(
                out@.last()@,
            ));
        }
        i = i + 1;
    }
    assert(rows@.take(rows@.len() as int) =~= rows@);
    out
}

/// The message of a simulated removal.
pub open spec fn remove_env_dry_message(scope: Seq<char>, name: Seq<char>) -> Seq<char> {
    "Removeria a variável de "@ + scope + " `"@ + name + "` (SetEnvironmentVariable = null)."@
}

/// The script that removes the variable `name` from the scope.
pub open spec fn remove_env_script(scope: Seq<char>, name: Seq<char>) -> Seq<char> {
    "[Environment]::SetEnvironmentVariable('"@ + escape_quotes(name) + "', $null, '"@
        + ps_scope_spec(scope) + "')"@
}

/// First step of removing a variable: a simulation answers at once; otherwise the
/// removal script has to run in PowerShell.
pub fn remove_env_var_impl(scope: &str, name: &str, dry_run: bool) -> (r: Step)
    ensures
        dry_run ==> (r matches Step::Done(res) && res.ok && res.dry_run && res.message@
            == remove_env_dry_message(scope@, name@) && res.output@.len() == 0 && res.details is None),
        !dry_run ==> (r matches Step::Run(inv) && inv.program@ == "powershell"@
            && crate::text::views(inv.args@) == crate::util::powershell_args_spec(
            remove_env_script(scope@, name@),
        )),
{
    if dry_run {
        let mut m = String::from_str("Removeria a variável de ");
        m.append(scope);
        m.append(" `");
        m.append(name);
        m.append("` (SetEnvironmentVariable = null).");
        return Step::Done(ActionResult::dry(m));
    }
    let mut script = String::from_str("[Environment]::SetEnvironmentVariable('");
    let safe = escape_single_quotes(name);
    script.append(safe.as_str());
    script.append("', $null, '");
    script.append(ps_scope(scope));
    script.append("')");
    Step::Run(powershell(script.as_str()))
}

/// The answer of a removal from how the script ran.
pub fn remove_env_var_finish(name: &str, out: Result<Output, String>) -> (r: ActionResult)
    ensures
        answers(
            r,
            out,
            "Variável `"@ + name@ + "` removida."@,
            "Falha ao remover variável."@,
            "Falha ao executar PowerShell."@,
        ),
{
    let mut m = String::from_str("Variável `");
    m.append(name);
    m.append("` removida.");
    answer(out, m, "Falha ao remover variável.", "Falha ao executar PowerShell.")
}

/// Every listed variable has a name, and it is flagged exactly when the heuristic
/// says so.
pub proof fn listed_env_vars_are_named(scope: Seq<char>, rows: Seq<JsonValue>)
    ensures
        forall|i: int|
            0 <= i < env_list(scope, rows).len() ==> (#[trigger] env_list(scope, rows)[i]).name.len()
                > 0 && env_list(scope, rows)[i].suspicious == suspicious_spec(
                env_list(scope, rows)[i].name,
                env_list(scope, rows)[i].value,
            ) && env_list(scope, rows)[i].scope == scope,
{
    broadcast use vstd::seq_lib::group_filter_ensures;
    let m = rows.map_values(|row: JsonValue| env_row(scope, row));
    assert forall|i: int| 0 <= i < env_list(scope, rows).len() implies (#[trigger] env_list(
        scope,
        rows,
    )[i]).name.len() > 0 && env_list(scope, rows)[i].suspicious == suspicious_spec(
        env_list(scope, rows)[i].name,
        env_list(scope, rows)[i].value,
    ) && env_list(scope, rows)[i].scope == scope by {
        let e = env_list(scope, rows)[i];
        assert(m.filter(|e: EnvVarView| e.name.len() > 0).contains(e));
        assert(m.contains(e)) by {
            m.lemma_filter_contains_rev(|e: EnvVarView| e.name.len() > 0, e);
        }
        let j = choose|j: int| 0 <= j < m.len() && m[j] == e;
        assert(e == env_row(scope, rows[j]));
    }
}

} // verus!

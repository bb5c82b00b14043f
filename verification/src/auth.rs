//! The login bootstrap.
//!
//! Authentication starts with an unauthenticated call that registers
//! the access the tool wants and returns a validation URL together
//! with a consumer key; the operator validates in a browser and
//! stores the key in the configuration. The request body is framed
//! here so the call can be prepared entirely from plain values.

use vstd::prelude::*;
use crate::json::json_string;
use crate::json::append_json_string;

verus! {

/// One access rule the credential asks for.
pub struct Rule {
    pub method: String,
    pub path: String,
}

/// The mathematical value of a rule.
pub ghost struct RuleView {
    pub method: Seq<char>,
    pub path: Seq<char>,
}

impl View for Rule {
    type V = RuleView;

    open spec fn view(&self) -> RuleView {
        RuleView { method: self.method@, path: self.path@ }
    }
}

/// The credential request: the rules asked for and the page the
/// browser is sent to after validation.
pub struct Credential {
    pub access_rules: Vec<Rule>,
    pub redirection: String,
}

/// The mathematical value of a credential request.
pub ghost struct CredentialView {
    pub access_rules: Seq<RuleView>,
    pub redirection: Seq<char>,
}

impl View for Credential {
    type V = CredentialView;

    open spec fn view(&self) -> CredentialView {
        CredentialView {
            access_rules: self.access_rules@.map(|i: int, r: Rule| r@),
            redirection: self.redirection@,
        }
    }
}

/// What the bootstrap call returns: where to validate, the consumer
/// key to store, and the state of the credential.
pub struct CredentialValidation {
    pub validation_url: String,
    pub consumer_key: String,
    pub state: String,
}

/// One rule as a JSON object.
pub open spec fn rule_json(r: RuleView) -> Seq<char> {
    seq!['{', '"', 'm', 'e', 't', 'h', 'o', 'd', '"', ':'] + json_string(r.method)
        + seq![',', '"', 'p', 'a', 't', 'h', '"', ':'] + json_string(r.path)
        + seq!['}']
}

/// A rule list as a JSON array body, comma separated.
pub open spec fn rules_json(rs: Seq<RuleView>) -> Seq<char>
    decreases rs.len(),
{
    if rs.len() == 0 {
        Seq::empty()
    } else if rs.len() == 1 {
        rule_json(rs[0])
    } else {
        rule_json(rs[0]) + seq![','] + rules_json(rs.skip(1))
    }
}

/// The body posted to register a credential.
pub open spec fn credential_json(c: CredentialView) -> Seq<char> {
    seq!['{', '"', 'a', 'c', 'c', 'e', 's', 's', 'R', 'u', 'l', 'e', 's', '"', ':', '[']
        + rules_json(c.access_rules)
        + seq![']', ',', '"', 'r', 'e', 'd', 'i', 'r', 'e', 'c', 't', 'i', 'o', 'n', '"', ':']
        + json_string(c.redirection)
        + seq!['}']
}

/// Append one rule as JSON.
fn append_rule_json(out: &mut String, r: &Rule)
    ensures
        final(out)@ == old(out)@ + rule_json(r@),
{
    proof {
        reveal_strlit("{\"method\":");
        reveal_strlit(",\"path\":");
        reveal_strlit("}");
    }
    out.append("{\"method\":");
    append_json_string(out, r.method.as_str());
    out.append(",\"path\":");
    append_json_string(out, r.path.as_str());
    out.append("}");
    proof {
        assert(out@ =~= old(out)@ + rule_json(r@));
    }
}

/// Serialize a credential request for the bootstrap call.
pub fn credential_to_json(c: &Credential) -> (out: String)
    ensures
        out@ == credential_json(c@),
{
    proof {
        reveal_strlit("{\"accessRules\":[");
        reveal_strlit(",");
        reveal_strlit("],\"redirection\":");
        reveal_strlit("}");
    }
    let mut out = String::new();
    out.append("{\"accessRules\":[");
    let ghost rvs = c.access_rules@.map(|i: int, r: Rule| r@);
    let mut i: usize = 0;
    proof {
        assert(out@ =~= "{\"accessRules\":["@ + rules_json(rvs.take(0)));
    }
    while i < c.access_rules.len()
        invariant
            rvs == c.access_rules@.map(|k: int, r: Rule| r@),
            i <= rvs.len(),
            out@ == "{\"accessRules\":["@ + rules_json(rvs.take(i as int)),
        decreases rvs.len() - i,
    {
        if i > 0 {
            out.append(",");
        }
        append_rule_json(&mut out, &c.access_rules[i]);
        proof {
            lemma_rules_json_snoc(rvs, i as int);
            assert(rvs[i as int] == c.access_rules@[i as int]@);
            reveal_strlit(",");
            if i == 0 {
                assert(rules_json(rvs.take(0)) == Seq::<char>::empty());
                assert(rules_json(rvs.take(1)) == rule_json(rvs[0]));
                assert(out@ =~= "{\"accessRules\":["@ + rules_json(rvs.take(1)));
            } else {
                assert(","@ =~= seq![',']);
                assert(rules_json(rvs.take(i as int + 1))
                    == rules_json(rvs.take(i as int)) + seq![','] + rule_json(rvs[i as int]));
                assert(out@ =~= "{\"accessRules\":["@ + rules_json(rvs.take(i as int + 1)));
            }
        }
        i = i + 1;
    }
    proof {
        assert(rvs.take(i as int) =~= rvs);
    }
    out.append("],\"redirection\":");
    append_json_string(&mut out, c.redirection.as_str());
    out.append("}");
    proof {
        assert(out@ =~= credential_json(c@));
    }
    out
}

/// Appending a rule to a nonempty list appends a comma and its JSON;
/// to an empty list, just its JSON.
proof fn lemma_rules_json_snoc(rs: Seq<RuleView>, i: int)
    requires
        0 <= i < rs.len(),
    ensures
        i == 0 ==> rules_json(rs.take(1)) == rule_json(rs[0]),
        i > 0 ==> rules_json(rs.take(i + 1))
            == rules_json(rs.take(i)) + seq![','] + rule_json(rs[i]),
    decreases i,
{
    if i == 0 {
        assert(rs.take(1)[0] == rs[0]);
    } else if i == 1 {
        assert(rs.take(2)[0] == rs[0]);
        assert(rs.take(2).skip(1) =~= seq![rs[1]]);
        assert(rs.take(1)[0] == rs[0]);
        assert(rules_json(seq![rs[1]]) == rule_json(rs[1]));
        assert(rules_json(rs.take(2))
            =~= rules_json(rs.take(1)) + seq![','] + rule_json(rs[1]));
    } else {
        lemma_rules_json_snoc(rs.skip(1), i - 1);
        assert(rs.take(i + 1).skip(1) =~= rs.skip(1).take(i));
        assert(rs.take(i).skip(1) =~= rs.skip(1).take(i - 1));
        assert(rs.take(i + 1)[0] == rs[0]);
        assert(rs.take(i)[0] == rs[0]);
        assert(rs.skip(1)[i - 1] == rs[i]);
        assert(rs.take(i + 1).len() == i + 1);
        assert(rs.take(i).len() == i);
        assert(rules_json(rs.take(i + 1))
            == rule_json(rs[0]) + seq![','] + rules_json(rs.skip(1).take(i)));
        assert(rules_json(rs.take(i))
            == rule_json(rs[0]) + seq![','] + rules_json(rs.skip(1).take(i - 1)));
        assert(rule_json(rs[0]) + seq![','] + (rules_json(rs.skip(1).take(i - 1))
                + seq![','] + rule_json(rs[i]))
            =~= (rule_json(rs[0]) + seq![','] + rules_json(rs.skip(1).take(i - 1)))
                + seq![','] + rule_json(rs[i]));
    }
}

/// The access the tool registers at login: every method on every
/// path, and the page shown after validation.
pub fn default_credential() -> (r: Credential)
    ensures
        r@.access_rules.len() == 4,
        r@.access_rules[0] == (RuleView { method: "GET"@, path: "/*"@ }),
        r@.access_rules[1] == (RuleView { method: "POST"@, path: "/*"@ }),
        r@.access_rules[2] == (RuleView { method: "PUT"@, path: "/*"@ }),
        r@.access_rules[3] == (RuleView { method: "DELETE"@, path: "/*"@ }),
        r@.redirection == "https://upload.wikimedia.org/wikipedia/commons/thumb/f/f3/Emojione_1F4AA.svg/768px-Emojione_1F4AA.svg.png"@,
{
    let mut access_rules: Vec<Rule> = Vec::new();
    access_rules.push(Rule { method: String::from_str("GET"), path: String::from_str("/*") });
    access_rules.push(Rule { method: String::from_str("POST"), path: String::from_str("/*") });
    access_rules.push(Rule { method: String::from_str("PUT"), path: String::from_str("/*") });
    access_rules.push(Rule { method: String::from_str("DELETE"), path: String::from_str("/*") });
    let r = Credential {
        access_rules,
        redirection: String::from_str(
            "https://upload.wikimedia.org/wikipedia/commons/thumb/f/f3/Emojione_1F4AA.svg/768px-Emojione_1F4AA.svg.png",
        ),
    };
    proof {
        assert(r@.access_rules =~= seq![
            RuleView { method: "GET"@, path: "/*"@ },
            RuleView { method: "POST"@, path: "/*"@ },
            RuleView { method: "PUT"@, path: "/*"@ },
            RuleView { method: "DELETE"@, path: "/*"@ },
        ]);
    }
    r
}

} // verus!

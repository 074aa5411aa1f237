//! The JSON form of submission records, as the scheduler-side orchestrator reads them:
//! fields in a fixed order under the scheduler's names, absent optional fields omitted.
use vstd::prelude::*;
use crate::resources::{mail_type_list, normalises, opt_str, PolicySettings, SlurmResources};
use crate::text::{decimal, digit_char, fmt_decimal};

verus! {

/// The lower-case hexadecimal digit of `d` (0 to 15).
pub open spec fn hex_digit(d: int) -> char {
    if d < 10 {
        digit_char(d)
    } else if d == 10 {
        'a'
    } else if d == 11 {
        'b'
    } else if d == 12 {
        'c'
    } else if d == 13 {
        'd'
    } else if d == 14 {
        'e'
    } else {
        'f'
    }
}

/// How a character stands inside a JSON string: `"` and `\` behind a backslash; backspace,
/// tab, line feed, form feed and carriage return as `\b \t \n \f \r`; any other character
/// below U+0020 as `\u00` and two lower-case hex digits; everything else unchanged.
pub open spec fn escape_char(c: char) -> Seq<char> {
    let n: u32 = c as u32;
    if c == '"' {
        seq!['\\', '"']
    } else if c == '\\' {
        seq!['\\', '\\']
    } else if n == 8 {
        seq!['\\', 'b']
    } else if n == 9 {
        seq!['\\', 't']
    } else if n == 10 {
        seq!['\\', 'n']
    } else if n == 12 {
        seq!['\\', 'f']
    } else if n == 13 {
        seq!['\\', 'r']
    } else if n < 32 {
        seq!['\\', 'u', '0', '0', hex_digit((n / 16) as int), hex_digit((n % 16) as int)]
    } else {
        seq![c]
    }
}

/// The characters of `s`, each escaped for a JSON string.
pub open spec fn escaped(s: Seq<char>) -> Seq<char>
    decreases s.len(),
{
    if s.len() == 0 {
        Seq::empty()
    } else {
        escaped(s.drop_last()) + escape_char(s.last())
    }
}

/// The JSON string literal of `s`: its escaped characters between double quotes.
pub open spec fn json_string_of(s: Seq<char>) -> Seq<char> {
    seq!['"'] + escaped(s) + seq!['"']
}

/// Relies on serde_json::to_string on a `str`: the text between double quotes, with `"`, `\`
/// and the characters below U+0020 escaped as its escape table gives them. It writes into
/// memory and cannot fail there, so the error arm is never taken.
#[verifier::external_body]
fn json_string(s: &str) -> (r: String)
    ensures
        r@ == json_string_of(s@),
{
    match serde_json::to_string(s) {
        Ok(q) => q,
        Err(_) => String::new(),
    }
}

/// A field of a record: its name and its JSON value text.
pub type Field = (Seq<char>, Seq<char>);

/// The field `key` holding the string `v`.
pub open spec fn text_field(key: Seq<char>, v: Seq<char>) -> Field {
    (key, json_string_of(v))
}

/// The field `key` holding the string `o`, or no field when `o` is absent.
pub open spec fn opt_field(key: Seq<char>, o: Option<Seq<char>>) -> Seq<Field> {
    match o {
        Some(v) => seq![text_field(key, v)],
        None => Seq::empty(),
    }
}

/// The fields of a submission record in their order. Absent optional values give no field.
pub open spec fn record_fields(r: SlurmResources) -> Seq<Field> {
    seq![
        text_field("script"@, r.script@),
        text_field("err"@, r.log_err@),
        text_field("out"@, r.log_out@),
    ] + opt_field("job-name"@, opt_str(r.job_name)) + seq![
        ("cpus-per-task"@, decimal(r.cpus as nat)),
        ("nodes"@, decimal(r.nodes as nat)),
        text_field("time"@, r.time@),
        text_field("mem"@, r.memory@),
    ] + opt_field("mail-user"@, opt_str(r.mail_user)) + opt_field(
        "mail-type"@,
        opt_str(r.mail_type),
    ) + opt_field("constraint"@, opt_str(r.constraint)) + opt_field(
        "exclude"@,
        opt_str(r.exclude),
    ) + opt_field("nodelist"@, opt_str(r.nodelist))
}

/// The text of an object member: `"key":value`.
pub open spec fn member_text(f: Field) -> Seq<char> {
    "\""@ + f.0 + "\":"@ + f.1
}

/// The parts, separated by commas.
pub open spec fn comma_list(parts: Seq<Seq<char>>) -> Seq<char>
    decreases parts.len(),
{
    if parts.len() == 0 {
        Seq::empty()
    } else if parts.len() == 1 {
        parts[0]
    } else {
        comma_list(parts.drop_last()) + ","@ + parts.last()
    }
}

/// The views of a sequence of strings.
pub open spec fn strs_view(v: Seq<String>) -> Seq<Seq<char>> {
    v.map_values(|s: String| s@)
}

/// The JSON object of a submission record.
pub open spec fn record_text(r: SlurmResources) -> Seq<char> {
    "{"@ + comma_list(record_fields(r).map_values(|f: Field| member_text(f))) + "}"@
}

/// The JSON array of submission records, in order.
pub open spec fn response_text(rs: Seq<SlurmResources>) -> Seq<char> {
    "["@ + comma_list(rs.map_values(|r: SlurmResources| record_text(r))) + "]"@
}

/// Joins the parts with commas.
pub fn join_commas(parts: &Vec<String>) -> (r: String)
    ensures
        r@ == comma_list(strs_view(parts@)),
{
    let mut out = String::new();
    let mut i: usize = 0;
    while i < parts.len()
        invariant
            i <= parts@.len(),
            out@ == comma_list(strs_view(parts@.subrange(0, i as int))),
        decreases parts@.len() - i,
    {
        proof {
            let next = strs_view(parts@.subrange(0, i + 1));
            assert(next.drop_last() =~= strs_view(parts@.subrange(0, i as int)));
            assert(next.last() == parts@[i as int]@);
        }
        if i > 0 {
            out.append(",");
        }
        out.append(parts[i].as_str());
        i = i + 1;
    }
    proof {
        assert(parts@.subrange(0, parts@.len() as int) =~= parts@);
    }
    out
}

fn member(key: &str, value: &str) -> (r: String)
    ensures
        r@ == member_text((key@, value@)),
{
    let mut out = String::from_str("\"");
    out.append(key);
    out.append("\":");
    out.append(value);
    out
}

fn push_text(members: &mut Vec<String>, key: &str, value: &str)
    ensures
        strs_view(final(members)@) == strs_view(old(members)@).push(
            member_text(text_field(key@, value@)),
        ),
{
    let q = json_string(value);
    members.push(member(key, q.as_str()));
    proof {
        assert(strs_view(final(members)@) =~= strs_view(old(members)@).push(
            member_text(text_field(key@, value@)),
        ));
    }
}

fn push_opt(members: &mut Vec<String>, key: &str, value: &Option<String>)
    ensures
        strs_view(final(members)@) == strs_view(old(members)@) + opt_field(
            key@,
            opt_str(*value),
        ).map_values(|f: Field| member_text(f)),
{
    match value {
        Some(v) => {
            push_text(members, key, v.as_str());
            proof {
                assert(opt_field(key@, opt_str(*value)).map_values(|f: Field| member_text(f))
                    =~= seq![member_text(text_field(key@, v@))]);
                assert(strs_view(final(members)@) =~= strs_view(old(members)@) + opt_field(
                    key@,
                    opt_str(*value),
                ).map_values(|f: Field| member_text(f)));
            }
        },
        None => {
            proof {
                assert(strs_view(final(members)@) =~= strs_view(old(members)@) + opt_field(
                    key@,
                    opt_str(*value),
                ).map_values(|f: Field| member_text(f)));
            }
        },
    }
}

fn push_number(members: &mut Vec<String>, key: &str, n: usize)
    ensures
        strs_view(final(members)@) == strs_view(old(members)@).push(
            member_text((key@, decimal(n as nat))),
        ),
{
    let d = fmt_decimal(n as u64);
    members.push(member(key, d.as_str()));
    proof {
        assert(strs_view(final(members)@) =~= strs_view(old(members)@).push(
            member_text((key@, decimal(n as nat))),
        ));
    }
}

proof fn lemma_map_concat(a: Seq<Field>, b: Seq<Field>)
    ensures
        (a + b).map_values(|f: Field| member_text(f)) == a.map_values(|f: Field| member_text(f))
            + b.map_values(|f: Field| member_text(f)),
{
    assert((a + b).map_values(|f: Field| member_text(f)) =~= a.map_values(
        |f: Field| member_text(f),
    ) + b.map_values(|f: Field| member_text(f)));
}

/// Encodes a submission record as a JSON object.
pub fn encode_record(r: &SlurmResources) -> (out: String)
    ensures
        out@ == record_text(*r),
{
    let mut members: Vec<String> = Vec::new();
    push_text(&mut members, "script", r.script.as_str());
    push_text(&mut members, "err", r.log_err.as_str());
    push_text(&mut members, "out", r.log_out.as_str());
    push_opt(&mut members, "job-name", &r.job_name);
    push_number(&mut members, "cpus-per-task", r.cpus);
    push_number(&mut members, "nodes", r.nodes);
    push_text(&mut members, "time", r.time.as_str());
    push_text(&mut members, "mem", r.memory.as_str());
    push_opt(&mut members, "mail-user", &r.mail_user);
    push_opt(&mut members, "mail-type", &r.mail_type);
    push_opt(&mut members, "constraint", &r.constraint);
    push_opt(&mut members, "exclude", &r.exclude);
    push_opt(&mut members, "nodelist", &r.nodelist);
    proof {
        let s1 = seq![
            text_field("script"@, r.script@),
            text_field("err"@, r.log_err@),
            text_field("out"@, r.log_out@),
        ];
        let s2 = opt_field("job-name"@, opt_str(r.job_name));
        let s3 = seq![
            ("cpus-per-task"@, decimal(r.cpus as nat)),
            ("nodes"@, decimal(r.nodes as nat)),
            text_field("time"@, r.time@),
            text_field("mem"@, r.memory@),
        ];
        let s4 = opt_field("mail-user"@, opt_str(r.mail_user));
        let s5 = opt_field("mail-type"@, opt_str(r.mail_type));
        let s6 = opt_field("constraint"@, opt_str(r.constraint));
        let s7 = opt_field("exclude"@, opt_str(r.exclude));
        let s8 = opt_field("nodelist"@, opt_str(r.nodelist));
        lemma_map_concat(s1, s2);
        lemma_map_concat(s1 + s2, s3);
        lemma_map_concat(s1 + s2 + s3, s4);
        lemma_map_concat(s1 + s2 + s3 + s4, s5);
        lemma_map_concat(s1 + s2 + s3 + s4 + s5, s6);
        lemma_map_concat(s1 + s2 + s3 + s4 + s5 + s6, s7);
        lemma_map_concat(s1 + s2 + s3 + s4 + s5 + s6 + s7, s8);
        assert(s1.map_values(|f: Field| member_text(f)) =~= seq![
            member_text(text_field("script"@, r.script@)),
            member_text(text_field("err"@, r.log_err@)),
            member_text(text_field("out"@, r.log_out@)),
        ]);
        assert(s3.map_values(|f: Field| member_text(f)) =~= seq![
            member_text(("cpus-per-task"@, decimal(r.cpus as nat))),
            member_text(("nodes"@, decimal(r.nodes as nat))),
            member_text(text_field("time"@, r.time@)),
            member_text(text_field("mem"@, r.memory@)),
        ]);
        assert(strs_view(members@) =~= record_fields(*r).map_values(|f: Field| member_text(f)));
    }
    let body = join_commas(&members);
    let mut out = String::from_str("{");
    out.append(body.as_str());
    out.append("}");
    out
}

/// Encodes the submission records, in order, as one JSON array.
pub fn encode_response(records: &Vec<SlurmResources>) -> (out: String)
    ensures
        out@ == response_text(records@),
{
    let mut parts: Vec<String> = Vec::new();
    let mut i: usize = 0;
    while i < records.len()
        invariant
            i <= records@.len(),
            strs_view(parts@) =~= records@.subrange(0, i as int).map_values(
                |r: SlurmResources| record_text(r),
            ),
        decreases records@.len() - i,
    {
        let t = encode_record(&records[i]);
        let ghost prev = parts@;
        parts.push(t);
        proof {
            assert(strs_view(parts@) =~= strs_view(prev).push(t@));
            assert(records@.subrange(0, i + 1).map_values(|r: SlurmResources| record_text(r))
                =~= records@.subrange(0, i as int).map_values(
                |r: SlurmResources| record_text(r),
            ).push(record_text(records@[i as int])));
        }
        i = i + 1;
    }
    proof {
        assert(records@.subrange(0, records@.len() as int) =~= records@);
    }
    let body = join_commas(&parts);
    let mut out = String::from_str("[");
    out.append(body.as_str());
    out.append("]");
    out
}

/// A policy with no notification events gives a record whose JSON form has no mail-type
/// field at all, rather than an empty one; with events, the field holds their list.
pub proof fn lemma_mail_type_field_omitted(
    r: SlurmResources,
    p: PolicySettings,
    param_id: Seq<char>,
    input_id: Seq<char>,
    dir: Seq<char>,
)
    requires
        normalises(r, p, param_id, input_id, dir),
    ensures
        p.mail_type@.len() == 0 ==> forall|i: int|
            0 <= i < record_fields(r).len() ==> (#[trigger] record_fields(r)[i]).0 != "mail-type"@,
        p.mail_type@.len() > 0 ==> record_fields(r).contains(
            text_field("mail-type"@, mail_type_list(p.mail_type@)),
        ),
{
    reveal_strlit("script");
    reveal_strlit("err");
    reveal_strlit("out");
    reveal_strlit("job-name");
    reveal_strlit("cpus-per-task");
    reveal_strlit("nodes");
    reveal_strlit("time");
    reveal_strlit("mem");
    reveal_strlit("mail-user");
    reveal_strlit("mail-type");
    reveal_strlit("constraint");
    reveal_strlit("exclude");
    reveal_strlit("nodelist");
    let fs = record_fields(r);
    let s1 = seq![
        text_field("script"@, r.script@),
        text_field("err"@, r.log_err@),
        text_field("out"@, r.log_out@),
    ] + opt_field("job-name"@, opt_str(r.job_name)) + seq![
        ("cpus-per-task"@, decimal(r.cpus as nat)),
        ("nodes"@, decimal(r.nodes as nat)),
        text_field("time"@, r.time@),
        text_field("mem"@, r.memory@),
    ] + opt_field("mail-user"@, opt_str(r.mail_user));
    let s2 = opt_field("mail-type"@, opt_str(r.mail_type));
    let s3 = opt_field("constraint"@, opt_str(r.constraint)) + opt_field(
        "exclude"@,
        opt_str(r.exclude),
    ) + opt_field("nodelist"@, opt_str(r.nodelist));
    assert(fs =~= s1 + s2 + s3);
    assert forall|i: int| 0 <= i < s1.len() implies (#[trigger] s1[i]).0 != "mail-type"@ by {
        assert(s1[i].0.len() != 9 || s1[i].0[5] != 't');
    }
    assert forall|i: int| 0 <= i < s3.len() implies (#[trigger] s3[i]).0 != "mail-type"@ by {
        assert(s3[i].0.len() != 9);
    }
    if p.mail_type@.len() == 0 {
        assert(s2.len() == 0);
        assert forall|i: int| 0 <= i < fs.len() implies (#[trigger] fs[i]).0 != "mail-type"@ by {
            if i < s1.len() {
                assert(fs[i] == s1[i]);
            } else {
                assert(fs[i] == s3[i - s1.len()]);
            }
        }
    } else {
        assert(fs[s1.len() as int] == text_field("mail-type"@, mail_type_list(p.mail_type@)));
    }
}

} // verus!

use slurm_harray::{encode_record, MailType, MemoryAmount, PolicySettings, SlurmResources};

fn policy() -> PolicySettings {
    PolicySettings {
        script: String::from("#!/bin/bash\n"),
        time_secs: 3661,
        memory: MemoryAmount::from_gb(4),
        cpus: 1,
        nodes: 1,
        job_name: None,
        mail_user: None,
        mail_type: Vec::new(),
        constraint: None,
        exclude: None,
        nodelist: None,
        log_err: None,
        log_out: None,
    }
}

#[test]
fn defaults_use_identities_and_directory() {
    let r = SlurmResources::new(&policy(), "PARAMID", "IDX001", "/data/logs/PARAMID");
    assert_eq!(r.script, "#!/bin/bash\n");
    assert_eq!(r.time, "0-1:01:01");
    assert_eq!(r.memory, "4000MB");
    assert_eq!(r.cpus, 1);
    assert_eq!(r.nodes, 1);
    assert_eq!(r.job_name, Some(String::from("PARAMID")));
    assert_eq!(r.log_err, "/data/logs/PARAMID/IDX001.err");
    assert_eq!(r.log_out, "/data/logs/PARAMID/IDX001.out");
    assert_eq!(r.mail_type, None);
    assert_eq!(r.mail_user, None);
    assert_eq!(r.constraint, None);
    assert_eq!(r.exclude, None);
    assert_eq!(r.nodelist, None);
}

#[test]
fn explicit_settings_are_kept() {
    let mut p = policy();
    p.job_name = Some(String::from("hello world"));
    p.mail_user = Some(String::from("me@example.org"));
    p.mail_type = vec![MailType::Begin, MailType::End, MailType::TimeLimit80];
    p.exclude = Some(String::from("bad-node"));
    p.constraint = Some(String::from("skylake"));
    p.nodelist = Some(String::from("n[1-4]"));
    p.log_err = Some(String::from("/tmp/e.log"));
    p.cpus = 8;
    p.nodes = 2;
    let r = SlurmResources::new(&p, "PARAMID", "IDX001", "/data/logs/PARAMID");
    assert_eq!(r.job_name, Some(String::from("hello world")));
    assert_eq!(r.mail_user, Some(String::from("me@example.org")));
    assert_eq!(r.mail_type, Some(String::from("BEGIN,END,TIME_LIMIT_80")));
    assert_eq!(r.exclude, Some(String::from("bad-node")));
    assert_eq!(r.constraint, Some(String::from("skylake")));
    assert_eq!(r.nodelist, Some(String::from("n[1-4]")));
    assert_eq!(r.log_err, "/tmp/e.log");
    assert_eq!(r.log_out, "/data/logs/PARAMID/IDX001.out");
    assert_eq!(r.cpus, 8);
    assert_eq!(r.nodes, 2);
}

#[test]
fn record_json_with_defaults() {
    let r = SlurmResources::new(&policy(), "P", "I", "/d/P");
    assert_eq!(
        encode_record(&r),
        "{\"script\":\"#!/bin/bash\\n\",\"err\":\"/d/P/I.err\",\"out\":\"/d/P/I.out\",\"job-name\":\"P\",\"cpus-per-task\":1,\"nodes\":1,\"time\":\"0-1:01:01\",\"mem\":\"4000MB\"}"
    );
}

#[test]
fn no_events_means_no_mail_type_field() {
    let r = SlurmResources::new(&policy(), "P", "I", "/d/P");
    let text = encode_record(&r);
    assert!(!text.contains("mail-type"));
    assert!(!text.contains("null"));
}

#[test]
fn record_json_with_every_field() {
    let mut p = policy();
    p.time_secs = 90000;
    p.mail_user = Some(String::from("me@example.org"));
    p.mail_type = vec![MailType::Fail];
    p.constraint = Some(String::from("c"));
    p.exclude = Some(String::from("x"));
    p.nodelist = Some(String::from("n1"));
    p.cpus = 16;
    let r = SlurmResources::new(&p, "P", "I", "/d/P");
    assert_eq!(
        encode_record(&r),
        "{\"script\":\"#!/bin/bash\\n\",\"err\":\"/d/P/I.err\",\"out\":\"/d/P/I.out\",\"job-name\":\"P\",\"cpus-per-task\":16,\"nodes\":1,\"time\":\"1-1:00:00\",\"mem\":\"4000MB\",\"mail-user\":\"me@example.org\",\"mail-type\":\"FAIL\",\"constraint\":\"c\",\"exclude\":\"x\",\"nodelist\":\"n1\"}"
    );
}

#[test]
fn strings_are_escaped() {
    let mut p = policy();
    p.script = String::from("echo \"hi\"");
    let r = SlurmResources::new(&p, "P", "I", "/d/P");
    assert!(encode_record(&r).starts_with("{\"script\":\"echo \\\"hi\\\"\","));
}

#[test]
fn control_characters_are_escaped() {
    let mut p = policy();
    p.script = String::from("a\tb\u{1}\u{1f}\\/\u{7f}é");
    let r = SlurmResources::new(&p, "P", "I", "/d/P");
    assert!(encode_record(&r).starts_with("{\"script\":\"a\\tb\\u0001\\u001f\\\\/\u{7f}é\","));
}

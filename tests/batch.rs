use slurm_harray::{
    check_args_for_slurm_pipe, parse_descriptor, ArgError, BatchAction, BatchError, BatchExchange,
    MemoryAmount, PolicySettings, SlurmResources,
};

fn record_for(args: &[String]) -> SlurmResources {
    let p = PolicySettings {
        script: String::from("s"),
        time_secs: 60 * args.len() as u64,
        memory: MemoryAmount::from_mb(100),
        cpus: args.len(),
        nodes: 1,
        job_name: Some(args.join(" ")),
        mail_user: None,
        mail_type: Vec::new(),
        constraint: None,
        exclude: None,
        nodelist: None,
        log_err: None,
        log_out: None,
    };
    SlurmResources::new(&p, "P", "I", "/d")
}

fn strings(v: &[&str]) -> Vec<String> {
    v.iter().map(|s| s.to_string()).collect()
}

#[test]
fn batch_responds_in_request_order() {
    let request = b"[[\"--index\",\"3\"],[\"--index\",\"1\",\"--frob\"],[]]";
    let mut ex = BatchExchange::from_request(request).unwrap();
    let mut asked: Vec<Vec<String>> = Vec::new();
    let payload = loop {
        match ex.next_action() {
            BatchAction::Build(args) => {
                asked.push(args.clone());
                ex.report(Some(record_for(&args)));
            }
            BatchAction::Respond(p) => break p,
            BatchAction::Stop => panic!("unexpected stop"),
        }
    };
    assert_eq!(asked, vec![strings(&["--index", "3"]), strings(&["--index", "1", "--frob"]), vec![]]);
    let r0 = slurm_harray::encode_record(&record_for(&asked[0]));
    let r1 = slurm_harray::encode_record(&record_for(&asked[1]));
    let r2 = slurm_harray::encode_record(&record_for(&asked[2]));
    assert_eq!(payload, format!("[{},{},{}]", r0, r1, r2));
    assert!(payload.find("\"job-name\":\"--index 3\"").unwrap() < payload.find("\"job-name\":\"--index 1 --frob\"").unwrap());
}

#[test]
fn empty_batch_responds_with_empty_list() {
    let ex = BatchExchange::from_request(b"[]").unwrap();
    match ex.next_action() {
        BatchAction::Respond(p) => assert_eq!(p, "[]"),
        other => panic!("unexpected {:?}", other),
    }
}

#[test]
fn batch_failure_writes_nothing() {
    let request = b"[[\"a\"],[\"b\"],[\"c\"]]";
    let mut ex = BatchExchange::from_request(request).unwrap();
    let mut written = String::new();
    let mut step = 0;
    loop {
        match ex.next_action() {
            BatchAction::Build(args) => {
                if step == 1 {
                    ex.report(None);
                } else {
                    ex.report(Some(record_for(&args)));
                }
                step += 1;
            }
            BatchAction::Respond(p) => {
                written.push_str(&p);
                break;
            }
            BatchAction::Stop => break,
        }
    }
    assert_eq!(step, 2);
    assert_eq!(written, "");
    ex.report(Some(record_for(&strings(&["c"]))));
    assert!(matches!(ex.next_action(), BatchAction::Stop));
}

#[test]
fn malformed_request_is_rejected() {
    assert_eq!(BatchExchange::from_request(b"[[\"a\"], [1]]").err(), Some(BatchError::MalformedRequest));
    assert_eq!(BatchExchange::from_request(b"not json").err(), Some(BatchError::MalformedRequest));
    assert_eq!(BatchExchange::from_request(b"").err(), Some(BatchError::MalformedRequest));
}

#[test]
fn pipe_flag_detected() {
    let args = strings(&["prog", "--index", "3", "--p-slurminfo", "5", "6"]);
    assert_eq!(check_args_for_slurm_pipe(&args), Ok(Some((5, 6))));
}

#[test]
fn no_pipe_flag_is_single_shot() {
    assert_eq!(check_args_for_slurm_pipe(&strings(&["prog", "--index", "3"])), Ok(None));
    assert_eq!(check_args_for_slurm_pipe(&vec![]), Ok(None));
}

#[test]
fn help_before_repeat_wins() {
    let args = strings(&["prog", "--p-slurminfo", "5", "6", "--help", "--p-slurminfo"]);
    assert_eq!(check_args_for_slurm_pipe(&args), Ok(None));
    assert_eq!(check_args_for_slurm_pipe(&strings(&["prog", "-h", "--p-slurminfo", "x", "y"])), Ok(None));
}

#[test]
fn descriptors_are_not_scanned_as_flags() {
    let args = strings(&["prog", "--p-slurminfo", "--help", "6"]);
    assert_eq!(check_args_for_slurm_pipe(&args), Err(ArgError::BadDescriptor(String::from("--help"))));
}

#[test]
fn repeated_pipe_flag_is_an_error() {
    let args = strings(&["prog", "--p-slurminfo", "5", "6", "--p-slurminfo", "7", "8"]);
    assert_eq!(check_args_for_slurm_pipe(&args), Err(ArgError::RepeatedPipeFlag));
}

#[test]
fn missing_descriptor_is_an_error() {
    assert_eq!(check_args_for_slurm_pipe(&strings(&["prog", "--p-slurminfo", "5"])), Err(ArgError::MissingDescriptor));
    assert_eq!(check_args_for_slurm_pipe(&strings(&["prog", "--p-slurminfo"])), Err(ArgError::MissingDescriptor));
}

#[test]
fn bad_descriptor_is_an_error() {
    assert_eq!(
        check_args_for_slurm_pipe(&strings(&["prog", "--p-slurminfo", "five", "6"])),
        Err(ArgError::BadDescriptor(String::from("five")))
    );
}

#[test]
fn descriptor_parsing() {
    assert_eq!(parse_descriptor("0"), Some(0));
    assert_eq!(parse_descriptor("12"), Some(12));
    assert_eq!(parse_descriptor("+4"), Some(4));
    assert_eq!(parse_descriptor("-3"), Some(-3));
    assert_eq!(parse_descriptor("2147483647"), Some(i32::MAX));
    assert_eq!(parse_descriptor("-2147483648"), Some(i32::MIN));
    assert_eq!(parse_descriptor("2147483648"), None);
    assert_eq!(parse_descriptor("99999999999999999999"), None);
    assert_eq!(parse_descriptor(""), None);
    assert_eq!(parse_descriptor("-"), None);
    assert_eq!(parse_descriptor("1a"), None);
    assert_eq!(parse_descriptor(" 1"), None);
}

use slurm_harray::text::{fmt_decimal, fmt_two_digits};
use slurm_harray::{fmt_as_slurm_time, fmt_mail_types, fmt_memory, MailType, MemoryAmount, Profile};

#[test]
fn slurm_time_zero() {
    assert_eq!(fmt_as_slurm_time(0), "0-0:00:00");
}

#[test]
fn slurm_time_one_hour_one_minute_one_second() {
    assert_eq!(fmt_as_slurm_time(3661), "0-1:01:01");
}

#[test]
fn slurm_time_one_day_one_hour() {
    assert_eq!(fmt_as_slurm_time(90000), "1-1:00:00");
}

#[test]
fn slurm_time_one_day_one_hour_one_minute_one_second() {
    assert_eq!(fmt_as_slurm_time(90061), "1-1:01:01");
}

#[test]
fn slurm_time_hours_wrap_at_a_day() {
    assert_eq!(fmt_as_slurm_time(86399), "0-23:59:59");
    assert_eq!(fmt_as_slurm_time(86400), "1-0:00:00");
    assert_eq!(fmt_as_slurm_time(300), "0-0:05:00");
}

#[test]
fn slurm_time_largest() {
    assert_eq!(fmt_as_slurm_time(u64::MAX), "213503982334601-7:00:15");
}

#[test]
fn decimal_rendering() {
    assert_eq!(fmt_decimal(0), "0");
    assert_eq!(fmt_decimal(7), "7");
    assert_eq!(fmt_decimal(1234567890), "1234567890");
    assert_eq!(fmt_decimal(u64::MAX), "18446744073709551615");
    assert_eq!(fmt_two_digits(3), "03");
    assert_eq!(fmt_two_digits(42), "42");
}

#[test]
fn memory_amounts() {
    assert_eq!(MemoryAmount::from_mb(512).as_mb(), 512);
    assert_eq!(MemoryAmount::from_gb(4).as_mb(), 4000);
    assert_eq!(fmt_memory(&MemoryAmount::from_gb(4)), "4000MB");
    assert_eq!(fmt_memory(&MemoryAmount::from_mb(0)), "0MB");
}

#[test]
fn mail_type_tokens() {
    let all = vec![
        (MailType::NoMail, "NONE"),
        (MailType::Begin, "BEGIN"),
        (MailType::End, "END"),
        (MailType::Fail, "FAIL"),
        (MailType::Requeue, "REQUEUE"),
        (MailType::All, "ALL"),
        (MailType::InvalidDepend, "INVALID_DEPEND"),
        (MailType::StageOut, "STAGE_OUT"),
        (MailType::TimeLimit, "TIME_LIMIT"),
        (MailType::TimeLimit90, "TIME_LIMIT_90"),
        (MailType::TimeLimit80, "TIME_LIMIT_80"),
        (MailType::TimeLimit50, "TIME_LIMIT_50"),
        (MailType::ArrayTasks, "ARRAY_TASKS"),
    ];
    for (m, tok) in all {
        assert_eq!(m.to_string(), tok);
    }
}

#[test]
fn mail_types_keep_order_and_duplicates() {
    let events = vec![MailType::End, MailType::Begin, MailType::End, MailType::NoMail];
    assert_eq!(fmt_mail_types(&events), "END,BEGIN,END,NONE");
    assert_eq!(fmt_mail_types(&vec![MailType::Fail]), "FAIL");
    assert_eq!(fmt_mail_types(&vec![]), "");
}

#[test]
fn profile_default() {
    assert_eq!(Profile::default(), Profile::Default);
}

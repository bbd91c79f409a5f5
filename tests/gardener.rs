use sixty_challenge_days::gardener::{Branch, PeriodArgs, StalenessDate};

#[test]
fn test_load_from_args() {
    let args: Option<StalenessDate> = None;
    let branch = Branch::load_from_args(&args);
    assert_eq!(branch, None);

    let args: Option<StalenessDate> = Some(StalenessDate::Steleness {
        number: 5,
        period: PeriodArgs::Days,
    });
    let branch = Branch::load_from_args(&args);
    assert_eq!(
        branch,
        Some(Branch {
            number: 5,
            period: PeriodArgs::Days,
        })
    );
}

#[test]
fn period_defaults_to_months() {
    assert_eq!(PeriodArgs::default(), PeriodArgs::Months);
}

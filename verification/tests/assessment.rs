use match_lighthouse::assessment::{
    assess, assessment_summary, choice_breakdown, gather, sum_up, Assessment, ChoiceAnswer,
    ChoiceBreakdown, Share, Verdict, JEV_MODEL,
};

fn shares(values: &[(&str, f64)]) -> Vec<Share> {
    values
        .iter()
        .map(|(name, value)| Share {
            name: (*name).to_owned(),
            value: value.to_bits(),
            percent: format!("{:.0}", value * 100.0),
        })
        .collect()
}

fn verdict(choice: &str, confidence: f64, values: &[(&str, f64)]) -> Verdict {
    Verdict {
        choice: choice.to_owned(),
        percent: format!("{:.0}", confidence * 100.0),
        shares: shares(values),
    }
}

fn answer(choice: &str, confidence: f64, values: &[(&str, f64)]) -> ChoiceAnswer {
    ChoiceAnswer {
        choice: choice.to_owned(),
        confidence: confidence.to_bits(),
        probabilities: values
            .iter()
            .map(|(name, value)| ((*name).to_owned(), value.to_bits()))
            .collect(),
    }
}

const OPPORTUNITY: [(&str, f64); 3] = [("yes", 0.7), ("uncertain", 0.2), ("no", 0.1)];
const ROLES: [(&str, f64); 8] = [
    ("backend", 1.0),
    ("frontend", 0.0),
    ("fullstack", 0.0),
    ("platform_devops", 0.0),
    ("data_ai", 0.0),
    ("mobile", 0.0),
    ("engineering_management", 0.0),
    ("other_unknown", 0.0),
];
const LEVELS: [(&str, f64); 6] = [
    ("intern_junior", 0.0),
    ("middle", 0.0),
    ("senior", 1.0),
    ("staff_principal", 0.0),
    ("lead_manager", 0.0),
    ("unknown", 0.0),
];

#[test]
fn assessment_summary_keeps_probability_breakdowns() {
    let bits = |values: &[(&str, f64)]| -> Vec<(String, u64)> {
        values.iter().map(|(name, value)| ((*name).to_owned(), value.to_bits())).collect()
    };
    let assessment = Assessment {
        choice: "yes".to_owned(),
        confidence: 0.8_f64.to_bits(),
        probabilities: bits(&[("no", 0.1), ("uncertain", 0.2), ("yes", 0.7)]),
        role_type: Some(ChoiceBreakdown {
            choice: "backend".to_owned(),
            confidence: 0.9_f64.to_bits(),
            probabilities: bits(&[("backend", 0.9)]),
        }),
        seniority: None,
        model: JEV_MODEL.to_owned(),
    };
    let percents: Vec<(u64, String)> = [0.1, 0.2, 0.7, 0.8, 0.9]
        .iter()
        .map(|value: &f64| (value.to_bits(), format!("{:.0}", value * 100.0)))
        .collect();

    let summary = assessment_summary(&assessment, &percents);
    assert!(summary.contains("Opportunity: yes (80% confidence; yes 70%"));
    assert!(summary.contains("Role: backend (90% confidence; backend 90%)"));
    assert_eq!(
        summary,
        "Opportunity: yes (80% confidence; yes 70%, uncertain 20%, no 10%)\n\
         Role: backend (90% confidence; backend 90%)"
    );
}

#[test]
fn a_summary_has_a_line_for_each_choice() {
    let none = verdict("yes", 1.0, &[]);
    let senior = verdict("senior", 0.5, &[("middle", 0.5), ("senior", 0.5), ("unknown", -0.0)]);
    assert_eq!(
        sum_up(&none, &None, &Some(senior)),
        "Opportunity: yes (100% confidence)\n\
         Seniority: senior (50% confidence; middle 50%, senior 50%, unknown -0%)"
    );
}

#[test]
fn shares_are_ranked_as_doubles() {
    let values = [
        ("a", -1.0),
        ("b", 2.0),
        ("c", -0.0),
        ("d", 0.0),
        ("e", 1.5),
        ("f", -2.0),
        ("g", 1.5),
    ];
    let summary = sum_up(&verdict("x", 0.0, &values), &None, &None);
    assert_eq!(
        summary,
        "Opportunity: x (0% confidence; b 200%, e 150%, g 150%, d 0%, c -0%, a -100%, f -200%)"
    );
}

#[test]
fn a_valid_answer_is_taken_in_the_order_of_the_names() {
    let taken = choice_breakdown(&answer("yes", 0.8, &OPPORTUNITY), &["yes", "no", "uncertain"]);
    let taken = taken.ok().unwrap();
    assert_eq!(taken.choice, "yes");
    assert_eq!(taken.confidence, 0.8_f64.to_bits());
    let names: Vec<&str> = taken.probabilities.iter().map(|entry| entry.0.as_str()).collect();
    assert_eq!(names, vec!["no", "uncertain", "yes"]);
    assert_eq!(taken.probabilities[2].1, 0.7_f64.to_bits());
}

#[test]
fn the_last_value_of_a_name_counts() {
    let list = vec![("b".to_owned(), 1), ("a".to_owned(), 2), ("b".to_owned(), 3)];
    assert_eq!(gather(&list), vec![("a".to_owned(), 2), ("b".to_owned(), 3)]);
}

#[test]
fn answers_that_are_not_valid_are_refused() {
    let allowed = ["yes", "no", "uncertain"];
    for wrong in [
        answer("maybe", 0.8, &OPPORTUNITY),
        answer("yes", 1.1, &OPPORTUNITY),
        answer("yes", -0.1, &OPPORTUNITY),
        answer("yes", f64::NAN, &OPPORTUNITY),
        answer("yes", f64::INFINITY, &OPPORTUNITY),
        answer("yes", 0.8, &OPPORTUNITY[..2]),
        answer("yes", 0.8, &[("yes", 0.7), ("uncertain", 0.2), ("other", 0.1)]),
        answer("yes", 0.8, &[("yes", 0.7), ("uncertain", 0.2), ("no", 1.5)]),
        answer("yes", 0.8, &[("yes", f64::NAN), ("uncertain", 0.2), ("no", 0.1)]),
        answer("yes", 0.8, &[("yes", 0.7), ("uncertain", 0.2), ("no", 0.1), ("x", 0.0)]),
    ] {
        assert_eq!(
            choice_breakdown(&wrong, &allowed).err(),
            Some("Invalid Jev response".to_owned())
        );
    }
    for value in [0.0, -0.0, f64::MIN_POSITIVE, 5e-324, 1.0] {
        assert!(choice_breakdown(&answer("yes", value, &OPPORTUNITY), &allowed).is_ok());
    }
}

#[test]
fn an_assessment_needs_all_its_answers() {
    let opportunity = Some(answer("yes", 0.8, &OPPORTUNITY));
    let role = Some(answer("backend", 0.9, &ROLES));
    let seniority = Some(answer("senior", 0.7, &LEVELS));
    let assessment = assess(&opportunity, &role, &seniority).ok().unwrap();
    assert_eq!(assessment.choice, "yes");
    assert_eq!(assessment.model, "jev-1.13.0");
    assert_eq!(JEV_MODEL, "jev-1.13.0");
    let names: Vec<&str> =
        assessment.probabilities.iter().map(|entry| entry.0.as_str()).collect();
    assert_eq!(names, vec!["no", "uncertain", "yes"]);
    let percents = vec![
        (0.0f64.to_bits(), "0".to_owned()),
        (1.0f64.to_bits(), "100".to_owned()),
        (0.7f64.to_bits(), "70".to_owned()),
    ];
    assert!(assessment_summary(&assessment, &percents).ends_with(
        "Seniority: senior (70% confidence; senior 100%, intern_junior 0%, lead_manager 0%, \
         middle 0%, staff_principal 0%, unknown 0%)"
    ));
    assert_eq!(assessment.role_type.unwrap().choice, "backend");
    assert_eq!(assessment.seniority.unwrap().probabilities.len(), 6);
    let failed = |opportunity: &Option<ChoiceAnswer>,
                  role: &Option<ChoiceAnswer>,
                  seniority: &Option<ChoiceAnswer>| {
        assess(opportunity, role, seniority).err().unwrap()
    };
    assert_eq!(failed(&None, &role, &seniority), "Jev response missed job_opportunity");
    assert_eq!(failed(&opportunity, &None, &seniority), "Jev response missed role_type");
    assert_eq!(failed(&opportunity, &role, &None), "Jev response missed seniority");
    assert_eq!(failed(&role, &None, &None), "Invalid Jev response");
}

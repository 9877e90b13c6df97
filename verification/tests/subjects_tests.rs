use kernel_fuzz::metadata::{ChallengeProjectDescription, HarnessEntry, HarnessId, Language};
use kernel_fuzz::naming::{get_output_dir, sanitise_directory_name};
use kernel_fuzz::subjects::{collect_projects, projects_for, subject_cpus, Project, Projects};

#[test]
fn the_pool_hands_back_what_was_added() {
    let mut pool = Projects::new();
    assert!(pool.is_empty());
    assert_eq!(pool.get(), None);

    let subject = Project {
        project_id: 0,
        cs_name: "linux_kernel".to_string(),
        harness_id: "1".to_string(),
        subject_name: "h_1".to_string(),
    };
    pool.add(subject.clone());
    assert!(!pool.is_empty());
    assert_eq!(pool.len(), 1);
    assert_eq!(pool.get(), Some(subject));
    assert!(pool.is_empty());
}

#[test]
fn cpu_budget_with_fewer_subjects_than_machines() {
    // One subject, sixteen CPUs on the machine: 16/1 - 2 = 14.
    assert_eq!(subject_cpus(1, 2, 16, 0), 14);
    // The share is clamped below at six.
    assert_eq!(subject_cpus(1, 2, 4, 0), 6);
    // And above at fifty.
    assert_eq!(subject_cpus(1, 2, 200, 0), 50);
}

#[test]
fn cpu_budget_with_an_even_spread() {
    // Four subjects over two machines: two each, 16/2 - 1 = 7.
    assert_eq!(subject_cpus(4, 2, 16, 0), 7);
    assert_eq!(subject_cpus(4, 2, 16, 3), 7);
    // Clamped below at four.
    assert_eq!(subject_cpus(4, 2, 4, 0), 4);
}

#[test]
fn cpu_budget_accounts_for_the_residue() {
    // Five subjects over two machines: ids in the residue class carry
    // three subjects (12/3 - 1 = 3, clamped to 4), the rest two
    // (12/2 - 1 = 5).
    assert_eq!(subject_cpus(5, 2, 12, 0), 4);
    assert_eq!(subject_cpus(5, 2, 12, 1), 5);
}

#[test]
fn subjects_are_numbered_from_one_per_description() {
    let description = ChallengeProjectDescription {
        cp_name: "Mock Kernel".to_string(),
        language: Language::C,
        docker_image: None,
        cp_sources: vec![],
        sanitizers: vec![],
        harnesses: vec![
            (
                HarnessId("ha".to_string()),
                HarnessEntry { name: "ha".to_string(), source: None, binary: None },
            ),
            (
                HarnessId("hb".to_string()),
                HarnessEntry { name: "hb".to_string(), source: None, binary: None },
            ),
        ],
    };
    let subjects = projects_for(&description, 7);
    assert_eq!(subjects.len(), 2);
    assert_eq!(subjects[0].project_id, 7);
    assert_eq!(subjects[0].cs_name.as_str(), "mock_kernel");
    assert_eq!(subjects[0].harness_id.as_str(), "1");
    assert_eq!(subjects[0].subject_name.as_str(), "ha_1");
    assert_eq!(subjects[1].project_id, 8);
    assert_eq!(subjects[1].harness_id.as_str(), "2");
    assert_eq!(subjects[1].subject_name.as_str(), "hb_2");
}

#[test]
fn directory_names_are_sanitised_and_lowercased() {
    assert_eq!(sanitise_directory_name("Mock Kernel").as_str(), "mock_kernel");
    assert_eq!(sanitise_directory_name("a/b:c").as_str(), "a_b_c");
}

#[test]
fn the_output_root_is_below_the_destination() {
    assert_eq!(get_output_dir("/scratch").as_str(), "/scratch/benchmark/darpa");
}

#[test]
fn subjects_of_several_descriptions_are_numbered_consecutively() {
    let make = |name: &str, harnesses: &[&str]| ChallengeProjectDescription {
        cp_name: name.to_string(),
        language: Language::C,
        docker_image: None,
        cp_sources: vec![],
        sanitizers: vec![],
        harnesses: harnesses
            .iter()
            .map(|h| {
                (
                    HarnessId(h.to_string()),
                    HarnessEntry { name: h.to_string(), source: None, binary: None },
                )
            })
            .collect(),
    };
    let descriptions = vec![make("One", &["a", "b"]), make("Two", &["c"])];
    let all = collect_projects(&descriptions).unwrap();
    assert_eq!(all.len(), 3);
    assert_eq!(all[0].project_id, 0);
    assert_eq!(all[1].project_id, 1);
    assert_eq!(all[2].project_id, 2);
    assert_eq!(all[2].cs_name.as_str(), "two");
    assert_eq!(all[2].subject_name.as_str(), "c_1");
    assert_eq!(all[1].subject_name.as_str(), "b_2");
}

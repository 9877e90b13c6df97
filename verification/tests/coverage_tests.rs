use kernel_fuzz::coverage::KcovMapObserver;

#[test]
fn novelty_on_first_larger_value() {
    let mut observer = KcovMapObserver::new("kcov", 8);
    let mut region = vec![0u64; 8];
    region[3] = 7;
    let novelties = observer.post_exec(&region);
    assert_eq!(novelties, vec![3usize]);
}

#[test]
fn all_zero_region_reports_no_novelty() {
    let mut observer = KcovMapObserver::new("kcov", 16);
    let region = vec![0u64; 16];
    let novelties = observer.post_exec(&region);
    assert_eq!(novelties, Vec::<usize>::new());
}

#[test]
fn repeated_value_is_not_novel_again() {
    let mut observer = KcovMapObserver::new("kcov", 4);
    let mut region = vec![0u64; 4];
    region[1] = 5;
    assert_eq!(observer.post_exec(&region), vec![1usize]);
    assert_eq!(observer.post_exec(&region), Vec::<usize>::new());
    region[1] = 6;
    assert_eq!(observer.post_exec(&region), vec![1usize]);
}

#[test]
fn smaller_value_never_lowers_the_shadow() {
    let mut observer = KcovMapObserver::new("kcov", 2);
    let region = vec![9u64, 4];
    assert_eq!(observer.post_exec(&region), vec![0usize, 1]);
    let lower = vec![3u64, 4];
    assert_eq!(observer.post_exec(&lower), Vec::<usize>::new());
    let higher = vec![10u64, 4];
    assert_eq!(observer.post_exec(&higher), vec![0usize]);
}

#[test]
fn pre_exec_zeroes_the_region() {
    let observer = KcovMapObserver::new("kcov", 4);
    let mut region = vec![1u64, 2, 3, 4];
    observer.pre_exec(&mut region);
    assert_eq!(region, vec![0u64, 0, 0, 0]);
}

#[test]
fn observer_name_is_stable() {
    let observer = KcovMapObserver::new("kcov", 1);
    assert_eq!(observer.name().as_str(), "kcov");
    assert_eq!(observer.len(), 1);
}

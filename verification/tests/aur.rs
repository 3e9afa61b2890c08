use zerolinux_cleaner::aur::{detect_aur_helper, AurHelper, AurSearch};

fn search(installed: &[AurHelper]) -> Option<AurHelper> {
    let mut s = AurSearch::start();
    loop {
        match s {
            AurSearch::Ask(h) => s = detect_aur_helper(h, installed.contains(&h)),
            AurSearch::Found(h) => return Some(h),
            AurSearch::NoHelper => return None,
        }
    }
}

#[test]
fn the_first_installed_helper_is_found() {
    let all = [AurHelper::Paru, AurHelper::Yay, AurHelper::Pikaur, AurHelper::Trizen];
    assert_eq!(search(&[]), None);
    assert_eq!(search(&all), Some(AurHelper::Paru));
    assert_eq!(search(&all[1..]), Some(AurHelper::Yay));
    assert_eq!(search(&[AurHelper::Trizen, AurHelper::Pikaur]), Some(AurHelper::Pikaur));
    assert_eq!(search(&[AurHelper::Trizen]), Some(AurHelper::Trizen));
}

#[test]
fn helpers_have_the_names_of_their_binaries() {
    assert_eq!(AurHelper::Paru.name(), "paru");
    assert_eq!(AurHelper::Yay.name(), "yay");
    assert_eq!(AurHelper::Pikaur.name(), "pikaur");
    assert_eq!(AurHelper::Trizen.name(), "trizen");
}

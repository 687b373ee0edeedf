use doh_hosts::resolver_urls;
use doh_hosts::select_resolver;
use doh_hosts::selector_step;
use doh_hosts::target_hostnames;
use doh_hosts::SelectorStep;

#[test]
fn picks_the_first_reachable_candidate() {
    assert_eq!(select_resolver(&vec![true, true, true]), Some(0));
    assert_eq!(select_resolver(&vec![false, true, false]), Some(1));
    assert_eq!(select_resolver(&vec![false, false, true]), Some(2));
}

#[test]
fn later_entries_do_not_sway_the_choice() {
    assert_eq!(select_resolver(&vec![false, true, true]), Some(1));
    assert_eq!(select_resolver(&vec![false, true, false]), Some(1));
}

#[test]
fn signals_exhaustion_when_none_is_reachable() {
    assert_eq!(select_resolver(&vec![false, false, false]), None);
    assert_eq!(select_resolver(&vec![]), None);
}

#[test]
fn step_keeps_a_reachable_candidate() {
    assert_eq!(selector_step(0, 3, true), SelectorStep::Chosen(0));
    assert_eq!(selector_step(2, 3, true), SelectorStep::Chosen(2));
}

#[test]
fn step_moves_past_an_unreachable_candidate() {
    assert_eq!(selector_step(0, 3, false), SelectorStep::TryNext(1));
    assert_eq!(selector_step(1, 3, false), SelectorStep::TryNext(2));
}

#[test]
fn step_gives_up_after_the_last_candidate() {
    assert_eq!(selector_step(2, 3, false), SelectorStep::Exhausted);
}

#[test]
fn the_candidate_list_is_fixed() {
    let urls = resolver_urls();
    assert_eq!(
        urls,
        vec![
            String::from("https://1.0.0.1/dns-query"),
            String::from("https://1.1.1.1/dns-query"),
            String::from("https://cloudflare-dns.com/dns-query"),
        ]
    );
}

#[test]
fn the_target_list_starts_with_the_probe_hostname() {
    let names = target_hostnames();
    assert_eq!(names.len(), 35);
    assert_eq!(names[0], "github.io");
    assert_eq!(names[34], "media.githubusercontent.com");
}

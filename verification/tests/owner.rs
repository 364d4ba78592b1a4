use lib::limits::CompileLimits;
use lib::owner::OwnerIndex;
use lib::scratch::PreflightScratch;

#[test]
fn owner_index_distinguishes_full_addresses_and_counts_claims() {
    let limits = CompileLimits::p100_initial_v1();
    let mut scratch = PreflightScratch::new(&limits, 0);
    let mut index = OwnerIndex::new(&[("a>section", "lane"), ("b>section", "lane")], &mut scratch).unwrap();
    assert!(index.find("a>section>lane").is_some());
    assert!(index.find("b>section>lane").is_some());
    assert!(index.find("c>section>lane").is_none());
    assert!(index.find("a>other>lane").is_none());
    assert!(index.find("city::a>section>lane").is_none());
    assert!(!index.all_owned_once());
    assert!(index.claim("a>section>lane"));
    assert!(!index.all_owned_once());
    assert!(index.claim("b>section>lane"));
    assert!(index.all_owned_once());
    assert!(index.claim("a>section>lane"));
    assert!(!index.all_owned_once());
    for _ in 0..256 {
        assert!(index.claim("a>section>lane"));
    }
    assert!(!index.all_owned_once());
}

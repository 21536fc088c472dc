use net_profiling::catalog::{Alloc, KernelFunction, Tracepoint};
use net_profiling::records::Program;
use net_profiling::utils::{mean, median};

#[test]
fn kernel_function_tags_round_trip() {
    let f = KernelFunction::e1000_netpoll;
    assert_eq!(f.as_id(), 0);
    assert_eq!(f.to_str(), "e1000_netpoll");
    let g = KernelFunction::from_id(KernelFunction::nf_hook_slow.as_id());
    assert_eq!(g.to_str(), "nf_hook_slow");
    assert_eq!(KernelFunction::from_id(0).as_id(), 0);
}

#[test]
fn alloc_tags_round_trip() {
    let a = Alloc::kfree;
    assert_eq!(Alloc::from_id(a.as_id()).to_str(), "kfree");
    assert_eq!(Alloc::bio_kmalloc.as_id(), 0);
    assert_eq!(
        Alloc::kmem_cache_free_bulk_p_part_p_0.to_str(),
        "kmem_cache_free_bulk_p_part_p_0"
    );
}

#[test]
fn tracepoint_tags_round_trip() {
    assert_eq!(Tracepoint::kmalloc.as_id(), 0);
    assert_eq!(Tracepoint::kmem_cache_free.to_str(), "kmem_cache_free");
    assert_eq!(Tracepoint::from_id(1).to_str(), "kfree");
}

#[test]
fn mean_rounds_toward_zero() {
    assert_eq!(mean(&[2, 4, 7]), 4);
    assert_eq!(mean(&[5]), 5);
    assert_eq!(mean(&[1, 2]), 1);
}

#[test]
fn mean_of_one_largest_value_is_itself() {
    assert_eq!(mean(&[u64::MAX]), u64::MAX);
}

#[test]
fn median_takes_the_list_as_it_stands() {
    assert_eq!(median(&[9]), 9);
    assert_eq!(median(&[5, 3, 9]), 3);
    assert_eq!(median(&[7, 2, 9, 1]), 5);
    assert_eq!(median(&[4, 6]), 5);
}

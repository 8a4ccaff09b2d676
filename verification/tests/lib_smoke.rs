#[allow(unused_imports)]
use ceph::CephVersion;

#[test]
fn it_works() {
    assert_eq!(2 + 2, 4);
}

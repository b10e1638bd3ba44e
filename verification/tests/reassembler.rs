use dump2parquet::reassembler::cleanup_key;

#[test]
fn cleanup() {
    assert_eq!(
        cleanup_key("KEY `facebookConnectId_index` (`facebookConnectId`)"),
        "KEY `facebookConnectId_index` (`facebookConnectId`)"
    );
    assert_eq!(
        cleanup_key("KEY `facebookConnectId_index` (`facebookConnectId`(144))"),
        "KEY `facebookConnectId_index` (`facebookConnectId`)"
    );
    assert_eq!(
        cleanup_key("KEY `facebookConnectId_index` (`facebookConnectId`(144),`plop`)"),
        "KEY `facebookConnectId_index` (`facebookConnectId`,`plop`)"
    );
    assert_eq!(
        cleanup_key("KEY `facebookConnectId_index` (`facebookConnectId`(144),`plop`(12))"),
        "KEY `facebookConnectId_index` (`facebookConnectId`,`plop`)"
    );
    assert_eq!(
        cleanup_key("KEY `facebookConnectId_index` (`facebookConnectId`,`plop`(12))"),
        "KEY `facebookConnectId_index` (`facebookConnectId`,`plop`)"
    );
    assert_eq!(
        cleanup_key("FOREIGN KEY (`facebookConnectId`)"),
        "FOREIGN KEY (`facebookConnectId`)"
    );
    assert_eq!(
        cleanup_key("FOREIGN KEY (`facebookConnectId`(144))"),
        "FOREIGN KEY (`facebookConnectId`)"
    );
}

#[test]
fn line_without_key_marker_is_unchanged() {
    assert_eq!(cleanup_key("`name` varchar(255) NOT NULL,"), "`name` varchar(255) NOT NULL,");
    assert_eq!(cleanup_key("UNIQUE key (`a`(3))"), "UNIQUE key (`a`(3))");
    assert_eq!(cleanup_key(""), "");
}

#[test]
fn key_line_loses_everything_two_deep() {
    assert_eq!(cleanup_key("KEY ((a)b(c))"), "KEY (b)");
    assert_eq!(cleanup_key("KEY a)(b(c)d)"), "KEY a)(b(c)d)");
    assert_eq!(cleanup_key("PRIMARY KEY (`id`)) ENGINE=InnoDB"), "PRIMARY KEY (`id`)) ENGINE=InnoDB");
}

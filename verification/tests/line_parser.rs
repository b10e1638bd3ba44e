use dump2parquet::line_parser::parse_line;
use dump2parquet::schema::{ColumnDef, ColumnType, ColumnValue, Line};

#[test]
fn parse_insert_into() {
    let stmt="INSERT INTO `user` VALUES (1, 'foobar', NULL, '2012-01-02 12:55:22', 0),(1, 'foobar', NULL, '2012-01-02 12:55:22', 0),(1, 'foobar', NULL, '2012-01-02 12:55:22', 0),(1, 'foobar', NULL, '2012-01-02 12:55:22', -123);";
    let line = parse_line(stmt).unwrap();
    if let Line::InsertInto(table_name, columns_values) = line {
        assert_eq!("user", table_name);
        assert_eq!(
            columns_values,
            vec![
                vec![
                    ColumnValue::Integer(1),
                    ColumnValue::String("foobar".into()),
                    ColumnValue::Null,
                    ColumnValue::String("2012-01-02 12:55:22".into()),
                    ColumnValue::Integer(0)
                ],
                vec![
                    ColumnValue::Integer(1),
                    ColumnValue::String("foobar".into()),
                    ColumnValue::Null,
                    ColumnValue::String("2012-01-02 12:55:22".into()),
                    ColumnValue::Integer(0)
                ],
                vec![
                    ColumnValue::Integer(1),
                    ColumnValue::String("foobar".into()),
                    ColumnValue::Null,
                    ColumnValue::String("2012-01-02 12:55:22".into()),
                    ColumnValue::Integer(0)
                ],
                vec![
                    ColumnValue::Integer(1),
                    ColumnValue::String("foobar".into()),
                    ColumnValue::Null,
                    ColumnValue::String("2012-01-02 12:55:22".into()),
                    ColumnValue::Integer(-123)
                ]
            ]
        );
    } else {
        panic!("{line:?} is not insert into!");
    }
}

#[test]
fn parse_create_table() {
    let stmt = r#"CREATE TABLE `user` (
            `id` bigint NOT NULL,
            `shortName` varchar(255) CHARACTER SET utf8mb3 COLLATE utf8mb3_bin NOT NULL,
            `avatarUuid` varchar(36) CHARACTER SET utf8mb3 COLLATE utf8mb3_bin DEFAULT NULL,
            `registrationDate` timestamp NOT NULL DEFAULT CURRENT_TIMESTAMP,
            `premiumExpirationDate` timestamp NULL DEFAULT NULL,
            `excluded` tinyint(1) NOT NULL DEFAULT '0',
            `company_lid` bigint DEFAULT NULL,
            PRIMARY KEY (`lid`),
            UNIQUE KEY `email_index` (`email`),
            UNIQUE KEY `tel_key` (`tel`),
            KEY `authKey_index` (`authKey`),
            KEY `name_index` (`shortName`),
            KEY `registrationDate_index` (`registrationDate`),
            KEY `country_index` (`country`),
            KEY `company_lid` (`company_lid`),
            KEY `premiumExpirationDate` (`premiumExpirationDate`),
            CONSTRAINT `user_ibfk_1` FOREIGN KEY (`company_lid`) REFERENCES `company` (`lid`)
          ) ENGINE=InnoDB DEFAULT CHARSET=utf8mb3 COLLATE=utf8mb3_bin;"#;
    let line = parse_line(stmt).unwrap();
    if let Line::CreateTable(name, schema) = line {
        assert_eq!("user", name);
        assert_eq!(
            schema.0,
            vec![
                ColumnDef {
                    column_name: "id".into(),
                    nullable: false,
                    column_type: ColumnType::Integer,
                },
                ColumnDef {
                    column_name: "shortName".into(),
                    nullable: false,
                    column_type: ColumnType::String,
                },
                ColumnDef {
                    column_name: "avatarUuid".into(),
                    nullable: true,
                    column_type: ColumnType::String,
                },
                ColumnDef {
                    column_name: "registrationDate".into(),
                    nullable: false,
                    column_type: ColumnType::Timestamp,
                },
                ColumnDef {
                    column_name: "premiumExpirationDate".into(),
                    nullable: true,
                    column_type: ColumnType::Timestamp,
                },
                ColumnDef {
                    column_name: "excluded".into(),
                    nullable: false,
                    column_type: ColumnType::Integer,
                },
                ColumnDef {
                    column_name: "company_lid".into(),
                    nullable: true,
                    column_type: ColumnType::Integer,
                },
            ]
        )
    } else {
        panic!("{line:?} is not create table!");
    }
}

#[test]
fn projecting_the_column_names() {
    let stmt = "CREATE TABLE `t` (`b` int, `a` text, `C` datetime NOT NULL);";
    if let Line::CreateTable(_, schema) = parse_line(stmt).unwrap() {
        assert_eq!(schema.column_names(), vec!["b".to_string(), "a".to_string(), "C".to_string()]);
    } else {
        panic!("no table definition");
    }
}

//! The country table behind phone-number validation: for each supported
//! country code, the accepted lengths of the local number, the digits a mobile
//! number may start with (none listed means any), and the country's name.
//!
//! Countries not listed pass through with the generic E.164 checks only.
use vstd::prelude::*;

use crate::text::decimal;

verus! {

/// One row of the country table.
///
/// `local_lengths`: valid digit count(s) after the country code.
/// `mobile_start_digits`: valid first character(s) of the local number (empty = any).
pub struct PhoneRule {
    pub country_code: &'static str,
    pub local_lengths: &'static [u8],
    pub mobile_start_digits: &'static [char],
    pub country_name: &'static str,
}

/// What the table says of one country: local lengths, mobile start digits, name.
pub struct RuleSpec {
    pub lengths: Seq<u8>,
    pub starts: Seq<char>,
    pub name: Seq<char>,
}

impl PhoneRule {
    /// Whether this row is the table's row for the country code `code`.
    pub open spec fn is_rule_for(&self, code: nat) -> bool {
        &&& spec_rule(code) is Some
        &&& self.country_code@ == decimal(code)
        &&& self.local_lengths@ == spec_rule(code).unwrap().lengths
        &&& self.mobile_start_digits@ == spec_rule(code).unwrap().starts
        &&& self.country_name@ == spec_rule(code).unwrap().name
    }
}

/// The table, keyed by the numeric value of the country code.
pub open spec fn spec_rule(code: nat) -> Option<RuleSpec> {
    if code == 965 {
        Some(RuleSpec { lengths: seq![8u8], starts: seq!['4', '5', '6', '9'], name: "Kuwait"@ })
    } else if code == 966 {
        Some(RuleSpec { lengths: seq![9u8], starts: seq!['5'], name: "Saudi Arabia"@ })
    } else if code == 971 {
        Some(RuleSpec { lengths: seq![9u8], starts: seq!['5'], name: "UAE"@ })
    } else if code == 973 {
        Some(RuleSpec { lengths: seq![8u8], starts: seq!['3', '6'], name: "Bahrain"@ })
    } else if code == 974 {
        Some(RuleSpec { lengths: seq![8u8], starts: seq!['3', '5', '6', '7'], name: "Qatar"@ })
    } else if code == 968 {
        Some(RuleSpec { lengths: seq![8u8], starts: seq!['7', '9'], name: "Oman"@ })
    } else if code == 962 {
        Some(RuleSpec { lengths: seq![9u8], starts: seq!['7'], name: "Jordan"@ })
    } else if code == 961 {
        Some(RuleSpec { lengths: seq![7u8, 8u8], starts: seq!['3', '7', '8'], name: "Lebanon"@ })
    } else if code == 970 {
        Some(RuleSpec { lengths: seq![9u8], starts: seq!['5'], name: "Palestine"@ })
    } else if code == 964 {
        Some(RuleSpec { lengths: seq![10u8], starts: seq!['7'], name: "Iraq"@ })
    } else if code == 963 {
        Some(RuleSpec { lengths: seq![9u8], starts: seq!['9'], name: "Syria"@ })
    } else if code == 967 {
        Some(RuleSpec { lengths: seq![9u8], starts: seq!['7'], name: "Yemen"@ })
    } else if code == 20 {
        Some(RuleSpec { lengths: seq![10u8], starts: seq!['1'], name: "Egypt"@ })
    } else if code == 218 {
        Some(RuleSpec { lengths: seq![9u8], starts: seq!['9'], name: "Libya"@ })
    } else if code == 216 {
        Some(RuleSpec { lengths: seq![8u8], starts: seq!['2', '4', '5', '9'], name: "Tunisia"@ })
    } else if code == 212 {
        Some(RuleSpec { lengths: seq![9u8], starts: seq!['6', '7'], name: "Morocco"@ })
    } else if code == 213 {
        Some(RuleSpec { lengths: seq![9u8], starts: seq!['5', '6', '7'], name: "Algeria"@ })
    } else if code == 249 {
        Some(RuleSpec { lengths: seq![9u8], starts: seq!['9'], name: "Sudan"@ })
    } else if code == 98 {
        Some(RuleSpec { lengths: seq![10u8], starts: seq!['9'], name: "Iran"@ })
    } else if code == 90 {
        Some(RuleSpec { lengths: seq![10u8], starts: seq!['5'], name: "Turkey"@ })
    } else if code == 972 {
        Some(RuleSpec { lengths: seq![9u8], starts: seq!['5'], name: "Israel"@ })
    } else if code == 91 {
        Some(RuleSpec { lengths: seq![10u8], starts: seq!['6', '7', '8', '9'], name: "India"@ })
    } else if code == 92 {
        Some(RuleSpec { lengths: seq![10u8], starts: seq!['3'], name: "Pakistan"@ })
    } else if code == 880 {
        Some(RuleSpec { lengths: seq![10u8], starts: seq!['1'], name: "Bangladesh"@ })
    } else if code == 94 {
        Some(RuleSpec { lengths: seq![9u8], starts: seq!['7'], name: "Sri Lanka"@ })
    } else if code == 960 {
        Some(RuleSpec { lengths: seq![7u8], starts: seq!['7', '9'], name: "Maldives"@ })
    } else if code == 86 {
        Some(RuleSpec { lengths: seq![11u8], starts: seq!['1'], name: "China"@ })
    } else if code == 81 {
        Some(RuleSpec { lengths: seq![10u8], starts: seq!['7', '8', '9'], name: "Japan"@ })
    } else if code == 82 {
        Some(RuleSpec { lengths: seq![10u8], starts: seq!['1'], name: "South Korea"@ })
    } else if code == 886 {
        Some(RuleSpec { lengths: seq![9u8], starts: seq!['9'], name: "Taiwan"@ })
    } else if code == 65 {
        Some(RuleSpec { lengths: seq![8u8], starts: seq!['8', '9'], name: "Singapore"@ })
    } else if code == 60 {
        Some(RuleSpec { lengths: seq![9u8, 10u8], starts: seq!['1'], name: "Malaysia"@ })
    } else if code == 62 {
        Some(RuleSpec { lengths: seq![9u8, 10u8, 11u8, 12u8], starts: seq!['8'], name: "Indonesia"@ })
    } else if code == 63 {
        Some(RuleSpec { lengths: seq![10u8], starts: seq!['9'], name: "Philippines"@ })
    } else if code == 66 {
        Some(RuleSpec { lengths: seq![9u8], starts: seq!['6', '8', '9'], name: "Thailand"@ })
    } else if code == 84 {
        Some(RuleSpec { lengths: seq![9u8], starts: seq!['3', '5', '7', '8', '9'], name: "Vietnam"@ })
    } else if code == 95 {
        Some(RuleSpec { lengths: seq![9u8], starts: seq!['9'], name: "Myanmar"@ })
    } else if code == 855 {
        Some(RuleSpec { lengths: seq![8u8, 9u8], starts: seq!['1', '6', '7', '8', '9'], name: "Cambodia"@ })
    } else if code == 976 {
        Some(RuleSpec { lengths: seq![8u8], starts: seq!['6', '8', '9'], name: "Mongolia"@ })
    } else if code == 44 {
        Some(RuleSpec { lengths: seq![10u8], starts: seq!['7'], name: "UK"@ })
    } else if code == 33 {
        Some(RuleSpec { lengths: seq![9u8], starts: seq!['6', '7'], name: "France"@ })
    } else if code == 49 {
        Some(RuleSpec { lengths: seq![10u8, 11u8], starts: seq!['1'], name: "Germany"@ })
    } else if code == 39 {
        Some(RuleSpec { lengths: seq![10u8], starts: seq!['3'], name: "Italy"@ })
    } else if code == 34 {
        Some(RuleSpec { lengths: seq![9u8], starts: seq!['6', '7'], name: "Spain"@ })
    } else if code == 31 {
        Some(RuleSpec { lengths: seq![9u8], starts: seq!['6'], name: "Netherlands"@ })
    } else if code == 32 {
        Some(RuleSpec { lengths: seq![9u8], starts: seq![], name: "Belgium"@ })
    } else if code == 41 {
        Some(RuleSpec { lengths: seq![9u8], starts: seq!['7'], name: "Switzerland"@ })
    } else if code == 43 {
        Some(RuleSpec { lengths: seq![10u8], starts: seq!['6'], name: "Austria"@ })
    } else if code == 47 {
        Some(RuleSpec { lengths: seq![8u8], starts: seq!['4', '9'], name: "Norway"@ })
    } else if code == 48 {
        Some(RuleSpec { lengths: seq![9u8], starts: seq![], name: "Poland"@ })
    } else if code == 30 {
        Some(RuleSpec { lengths: seq![10u8], starts: seq!['6'], name: "Greece"@ })
    } else if code == 420 {
        Some(RuleSpec { lengths: seq![9u8], starts: seq!['6', '7'], name: "Czech Republic"@ })
    } else if code == 46 {
        Some(RuleSpec { lengths: seq![9u8], starts: seq!['7'], name: "Sweden"@ })
    } else if code == 45 {
        Some(RuleSpec { lengths: seq![8u8], starts: seq![], name: "Denmark"@ })
    } else if code == 40 {
        Some(RuleSpec { lengths: seq![9u8], starts: seq!['7'], name: "Romania"@ })
    } else if code == 36 {
        Some(RuleSpec { lengths: seq![9u8], starts: seq![], name: "Hungary"@ })
    } else if code == 380 {
        Some(RuleSpec { lengths: seq![9u8], starts: seq![], name: "Ukraine"@ })
    } else if code == 1 {
        Some(RuleSpec { lengths: seq![10u8], starts: seq![], name: "USA/Canada"@ })
    } else if code == 52 {
        Some(RuleSpec { lengths: seq![10u8], starts: seq![], name: "Mexico"@ })
    } else if code == 55 {
        Some(RuleSpec { lengths: seq![11u8], starts: seq![], name: "Brazil"@ })
    } else if code == 57 {
        Some(RuleSpec { lengths: seq![10u8], starts: seq!['3'], name: "Colombia"@ })
    } else if code == 54 {
        Some(RuleSpec { lengths: seq![10u8], starts: seq!['9'], name: "Argentina"@ })
    } else if code == 56 {
        Some(RuleSpec { lengths: seq![9u8], starts: seq!['9'], name: "Chile"@ })
    } else if code == 58 {
        Some(RuleSpec { lengths: seq![10u8], starts: seq!['4'], name: "Venezuela"@ })
    } else if code == 51 {
        Some(RuleSpec { lengths: seq![9u8], starts: seq!['9'], name: "Peru"@ })
    } else if code == 593 {
        Some(RuleSpec { lengths: seq![9u8], starts: seq!['9'], name: "Ecuador"@ })
    } else if code == 53 {
        Some(RuleSpec { lengths: seq![8u8], starts: seq!['5', '6'], name: "Cuba"@ })
    } else if code == 27 {
        Some(RuleSpec { lengths: seq![9u8], starts: seq!['6', '7', '8'], name: "South Africa"@ })
    } else if code == 234 {
        Some(RuleSpec { lengths: seq![10u8], starts: seq!['7', '8', '9'], name: "Nigeria"@ })
    } else if code == 254 {
        Some(RuleSpec { lengths: seq![9u8], starts: seq!['1', '7'], name: "Kenya"@ })
    } else if code == 233 {
        Some(RuleSpec { lengths: seq![9u8], starts: seq!['2', '5'], name: "Ghana"@ })
    } else if code == 251 {
        Some(RuleSpec { lengths: seq![9u8], starts: seq!['7', '9'], name: "Ethiopia"@ })
    } else if code == 255 {
        Some(RuleSpec { lengths: seq![9u8], starts: seq!['6', '7'], name: "Tanzania"@ })
    } else if code == 256 {
        Some(RuleSpec { lengths: seq![9u8], starts: seq!['7'], name: "Uganda"@ })
    } else if code == 237 {
        Some(RuleSpec { lengths: seq![9u8], starts: seq!['6'], name: "Cameroon"@ })
    } else if code == 225 {
        Some(RuleSpec { lengths: seq![10u8], starts: seq![], name: "Ivory Coast"@ })
    } else if code == 221 {
        Some(RuleSpec { lengths: seq![9u8], starts: seq!['7'], name: "Senegal"@ })
    } else if code == 252 {
        Some(RuleSpec { lengths: seq![9u8], starts: seq!['6', '7'], name: "Somalia"@ })
    } else if code == 250 {
        Some(RuleSpec { lengths: seq![9u8], starts: seq!['7'], name: "Rwanda"@ })
    } else if code == 61 {
        Some(RuleSpec { lengths: seq![9u8], starts: seq!['4'], name: "Australia"@ })
    } else if code == 64 {
        Some(RuleSpec { lengths: seq![8u8, 9u8, 10u8], starts: seq!['2'], name: "New Zealand"@ })
    } else {
        None
    }
}

/// The country codes of the table, in the table's order.
pub open spec fn table_codes() -> Seq<nat> {
    seq![965, 966, 971, 973, 974, 968, 962, 961, 970, 964, 963, 967, 20, 218, 216, 212, 213, 249, 98, 90, 972, 91, 92, 880, 94, 960, 86, 81, 82, 886, 65, 60, 62, 63, 66, 84, 95, 855, 976, 44, 33, 49, 39, 34, 31, 32, 41, 43, 47, 48, 30, 420, 46, 45, 40, 36, 380, 1, 52, 55, 57, 54, 56, 58, 51, 593, 53, 27, 234, 254, 233, 251, 255, 256, 237, 225, 221, 252, 250, 61, 64]
}

/// The table's row for the country code whose numeric value is `code`.
#[verifier::rlimit(100)]
pub fn phone_rule(code: u16) -> (r: Option<PhoneRule>)
    ensures
        r is Some <==> spec_rule(code as nat) is Some,
        r matches Some(x) ==> x.is_rule_for(code as nat),
{
    proof {
        reveal_with_fuel(decimal, 4);
    }
    match code {
        965 => {
            let rule = PhoneRule {
                country_code: "965",
                local_lengths: &[8],
                mobile_start_digits: &['4', '5', '6', '9'],
                country_name: "Kuwait",
            };
            proof {
                reveal_strlit("965");
                assert(decimal(965) =~= seq!['9', '6', '5']);
                assert(rule.local_lengths@ =~= seq![8u8]);
                assert(rule.mobile_start_digits@ =~= seq!['4', '5', '6', '9']);
                assert(spec_rule(965) == Some(RuleSpec { lengths: seq![8u8], starts: seq!['4', '5', '6', '9'], name: "Kuwait"@ }));
                assert(rule.country_code@ == decimal(965));
            }
            Some(rule)
        }
        966 => {
            let rule = PhoneRule {
                country_code: "966",
                local_lengths: &[9],
                mobile_start_digits: &['5'],
                country_name: "Saudi Arabia",
            };
            proof {
                reveal_strlit("966");
                assert(decimal(966) =~= seq!['9', '6', '6']);
                assert(rule.local_lengths@ =~= seq![9u8]);
                assert(rule.mobile_start_digits@ =~= seq!['5']);
                assert(spec_rule(966) == Some(RuleSpec { lengths: seq![9u8], starts: seq!['5'], name: "Saudi Arabia"@ }));
                assert(rule.country_code@ == decimal(966));
            }
            Some(rule)
        }
        971 => {
            let rule = PhoneRule {
                country_code: "971",
                local_lengths: &[9],
                mobile_start_digits: &['5'],
                country_name: "UAE",
            };
            proof {
                reveal_strlit("971");
                assert(decimal(971) =~= seq!['9', '7', '1']);
                assert(rule.local_lengths@ =~= seq![9u8]);
                assert(rule.mobile_start_digits@ =~= seq!['5']);
                assert(spec_rule(971) == Some(RuleSpec { lengths: seq![9u8], starts: seq!['5'], name: "UAE"@ }));
                assert(rule.country_code@ == decimal(971));
            }
            Some(rule)
        }
        973 => {
            let rule = PhoneRule {
                country_code: "973",
                local_lengths: &[8],
                mobile_start_digits: &['3', '6'],
                country_name: "Bahrain",
            };
            proof {
                reveal_strlit("973");
                assert(decimal(973) =~= seq!['9', '7', '3']);
                assert(rule.local_lengths@ =~= seq![8u8]);
                assert(rule.mobile_start_digits@ =~= seq!['3', '6']);
                assert(spec_rule(973) == Some(RuleSpec { lengths: seq![8u8], starts: seq!['3', '6'], name: "Bahrain"@ }));
                assert(rule.country_code@ == decimal(973));
            }
            Some(rule)
        }
        974 => {
            let rule = PhoneRule {
                country_code: "974",
                local_lengths: &[8],
                mobile_start_digits: &['3', '5', '6', '7'],
                country_name: "Qatar",
            };
            proof {
                reveal_strlit("974");
                assert(decimal(974) =~= seq!['9', '7', '4']);
                assert(rule.local_lengths@ =~= seq![8u8]);
                assert(rule.mobile_start_digits@ =~= seq!['3', '5', '6', '7']);
                assert(spec_rule(974) == Some(RuleSpec { lengths: seq![8u8], starts: seq!['3', '5', '6', '7'], name: "Qatar"@ }));
                assert(rule.country_code@ == decimal(974));
            }
            Some(rule)
        }
        968 => {
            let rule = PhoneRule {
                country_code: "968",
                local_lengths: &[8],
                mobile_start_digits: &['7', '9'],
                country_name: "Oman",
            };
            proof {
                reveal_strlit("968");
                assert(decimal(968) =~= seq!['9', '6', '8']);
                assert(rule.local_lengths@ =~= seq![8u8]);
                assert(rule.mobile_start_digits@ =~= seq!['7', '9']);
                assert(spec_rule(968) == Some(RuleSpec { lengths: seq![8u8], starts: seq!['7', '9'], name: "Oman"@ }));
                assert(rule.country_code@ == decimal(968));
            }
            Some(rule)
        }
        962 => {
            let rule = PhoneRule {
                country_code: "962",
                local_lengths: &[9],
                mobile_start_digits: &['7'],
                country_name: "Jordan",
            };
            proof {
                reveal_strlit("962");
                assert(decimal(962) =~= seq!['9', '6', '2']);
                assert(rule.local_lengths@ =~= seq![9u8]);
                assert(rule.mobile_start_digits@ =~= seq!['7']);
                assert(spec_rule(962) == Some(RuleSpec { lengths: seq![9u8], starts: seq!['7'], name: "Jordan"@ }));
                assert(rule.country_code@ == decimal(962));
            }
            Some(rule)
        }
        961 => {
            let rule = PhoneRule {
                country_code: "961",
                local_lengths: &[7, 8],
                mobile_start_digits: &['3', '7', '8'],
                country_name: "Lebanon",
            };
            proof {
                reveal_strlit("961");
                assert(decimal(961) =~= seq!['9', '6', '1']);
                assert(rule.local_lengths@ =~= seq![7u8, 8u8]);
                assert(rule.mobile_start_digits@ =~= seq!['3', '7', '8']);
                assert(spec_rule(961) == Some(RuleSpec { lengths: seq![7u8, 8u8], starts: seq!['3', '7', '8'], name: "Lebanon"@ }));
                assert(rule.country_code@ == decimal(961));
            }
            Some(rule)
        }
        970 => {
            let rule = PhoneRule {
                country_code: "970",
                local_lengths: &[9],
                mobile_start_digits: &['5'],
                country_name: "Palestine",
            };
            proof {
                reveal_strlit("970");
                assert(decimal(970) =~= seq!['9', '7', '0']);
                assert(rule.local_lengths@ =~= seq![9u8]);
                assert(rule.mobile_start_digits@ =~= seq!['5']);
                assert(spec_rule(970) == Some(RuleSpec { lengths: seq![9u8], starts: seq!['5'], name: "Palestine"@ }));
                assert(rule.country_code@ == decimal(970));
            }
            Some(rule)
        }
        964 => {
            let rule = PhoneRule {
                country_code: "964",
                local_lengths: &[10],
                mobile_start_digits: &['7'],
                country_name: "Iraq",
            };
            proof {
                reveal_strlit("964");
                assert(decimal(964) =~= seq!['9', '6', '4']);
                assert(rule.local_lengths@ =~= seq![10u8]);
                assert(rule.mobile_start_digits@ =~= seq!['7']);
                assert(spec_rule(964) == Some(RuleSpec { lengths: seq![10u8], starts: seq!['7'], name: "Iraq"@ }));
                assert(rule.country_code@ == decimal(964));
            }
            Some(rule)
        }
        963 => {
            let rule = PhoneRule {
                country_code: "963",
                local_lengths: &[9],
                mobile_start_digits: &['9'],
                country_name: "Syria",
            };
            proof {
                reveal_strlit("963");
                assert(decimal(963) =~= seq!['9', '6', '3']);
                assert(rule.local_lengths@ =~= seq![9u8]);
                assert(rule.mobile_start_digits@ =~= seq!['9']);
                assert(spec_rule(963) == Some(RuleSpec { lengths: seq![9u8], starts: seq!['9'], name: "Syria"@ }));
                assert(rule.country_code@ == decimal(963));
            }
            Some(rule)
        }
        967 => {
            let rule = PhoneRule {
                country_code: "967",
                local_lengths: &[9],
                mobile_start_digits: &['7'],
                country_name: "Yemen",
            };
            proof {
                reveal_strlit("967");
                assert(decimal(967) =~= seq!['9', '6', '7']);
                assert(rule.local_lengths@ =~= seq![9u8]);
                assert(rule.mobile_start_digits@ =~= seq!['7']);
                assert(spec_rule(967) == Some(RuleSpec { lengths: seq![9u8], starts: seq!['7'], name: "Yemen"@ }));
                assert(rule.country_code@ == decimal(967));
            }
            Some(rule)
        }
        20 => {
            let rule = PhoneRule {
                country_code: "20",
                local_lengths: &[10],
                mobile_start_digits: &['1'],
                country_name: "Egypt",
            };
            proof {
                reveal_strlit("20");
                assert(decimal(20) =~= seq!['2', '0']);
                assert(rule.local_lengths@ =~= seq![10u8]);
                assert(rule.mobile_start_digits@ =~= seq!['1']);
                assert(spec_rule(20) == Some(RuleSpec { lengths: seq![10u8], starts: seq!['1'], name: "Egypt"@ }));
                assert(rule.country_code@ == decimal(20));
            }
            Some(rule)
        }
        218 => {
            let rule = PhoneRule {
                country_code: "218",
                local_lengths: &[9],
                mobile_start_digits: &['9'],
                country_name: "Libya",
            };
            proof {
                reveal_strlit("218");
                assert(decimal(218) =~= seq!['2', '1', '8']);
                assert(rule.local_lengths@ =~= seq![9u8]);
                assert(rule.mobile_start_digits@ =~= seq!['9']);
                assert(spec_rule(218) == Some(RuleSpec { lengths: seq![9u8], starts: seq!['9'], name: "Libya"@ }));
                assert(rule.country_code@ == decimal(218));
            }
            Some(rule)
        }
        216 => {
            let rule = PhoneRule {
                country_code: "216",
                local_lengths: &[8],
                mobile_start_digits: &['2', '4', '5', '9'],
                country_name: "Tunisia",
            };
            proof {
                reveal_strlit("216");
                assert(decimal(216) =~= seq!['2', '1', '6']);
                assert(rule.local_lengths@ =~= seq![8u8]);
                assert(rule.mobile_start_digits@ =~= seq!['2', '4', '5', '9']);
                assert(spec_rule(216) == Some(RuleSpec { lengths: seq![8u8], starts: seq!['2', '4', '5', '9'], name: "Tunisia"@ }));
                assert(rule.country_code@ == decimal(216));
            }
            Some(rule)
        }
        212 => {
            let rule = PhoneRule {
                country_code: "212",
                local_lengths: &[9],
                mobile_start_digits: &['6', '7'],
                country_name: "Morocco",
            };
            proof {
                reveal_strlit("212");
                assert(decimal(212) =~= seq!['2', '1', '2']);
                assert(rule.local_lengths@ =~= seq![9u8]);
                assert(rule.mobile_start_digits@ =~= seq!['6', '7']);
                assert(spec_rule(212) == Some(RuleSpec { lengths: seq![9u8], starts: seq!['6', '7'], name: "Morocco"@ }));
                assert(rule.country_code@ == decimal(212));
            }
            Some(rule)
        }
        213 => {
            let rule = PhoneRule {
                country_code: "213",
                local_lengths: &[9],
                mobile_start_digits: &['5', '6', '7'],
                country_name: "Algeria",
            };
            proof {
                reveal_strlit("213");
                assert(decimal(213) =~= seq!['2', '1', '3']);
                assert(rule.local_lengths@ =~= seq![9u8]);
                assert(rule.mobile_start_digits@ =~= seq!['5', '6', '7']);
                assert(spec_rule(213) == Some(RuleSpec { lengths: seq![9u8], starts: seq!['5', '6', '7'], name: "Algeria"@ }));
                assert(rule.country_code@ == decimal(213));
            }
            Some(rule)
        }
        249 => {
            let rule = PhoneRule {
                country_code: "249",
                local_lengths: &[9],
                mobile_start_digits: &['9'],
                country_name: "Sudan",
            };
            proof {
                reveal_strlit("249");
                assert(decimal(249) =~= seq!['2', '4', '9']);
                assert(rule.local_lengths@ =~= seq![9u8]);
                assert(rule.mobile_start_digits@ =~= seq!['9']);
                assert(spec_rule(249) == Some(RuleSpec { lengths: seq![9u8], starts: seq!['9'], name: "Sudan"@ }));
                assert(rule.country_code@ == decimal(249));
            }
            Some(rule)
        }
        98 => {
            let rule = PhoneRule {
                country_code: "98",
                local_lengths: &[10],
                mobile_start_digits: &['9'],
                country_name: "Iran",
            };
            proof {
                reveal_strlit("98");
                assert(decimal(98) =~= seq!['9', '8']);
                assert(rule.local_lengths@ =~= seq![10u8]);
                assert(rule.mobile_start_digits@ =~= seq!['9']);
                assert(spec_rule(98) == Some(RuleSpec { lengths: seq![10u8], starts: seq!['9'], name: "Iran"@ }));
                assert(rule.country_code@ == decimal(98));
            }
            Some(rule)
        }
        90 => {
            let rule = PhoneRule {
                country_code: "90",
                local_lengths: &[10],
                mobile_start_digits: &['5'],
                country_name: "Turkey",
            };
            proof {
                reveal_strlit("90");
                assert(decimal(90) =~= seq!['9', '0']);
                assert(rule.local_lengths@ =~= seq![10u8]);
                assert(rule.mobile_start_digits@ =~= seq!['5']);
                assert(spec_rule(90) == Some(RuleSpec { lengths: seq![10u8], starts: seq!['5'], name: "Turkey"@ }));
                assert(rule.country_code@ == decimal(90));
            }
            Some(rule)
        }
        972 => {
            let rule = PhoneRule {
                country_code: "972",
                local_lengths: &[9],
                mobile_start_digits: &['5'],
                country_name: "Israel",
            };
            proof {
                reveal_strlit("972");
                assert(decimal(972) =~= seq!['9', '7', '2']);
                assert(rule.local_lengths@ =~= seq![9u8]);
                assert(rule.mobile_start_digits@ =~= seq!['5']);
                assert(spec_rule(972) == Some(RuleSpec { lengths: seq![9u8], starts: seq!['5'], name: "Israel"@ }));
                assert(rule.country_code@ == decimal(972));
            }
            Some(rule)
        }
        91 => {
            let rule = PhoneRule {
                country_code: "91",
                local_lengths: &[10],
                mobile_start_digits: &['6', '7', '8', '9'],
                country_name: "India",
            };
            proof {
                reveal_strlit("91");
                assert(decimal(91) =~= seq!['9', '1']);
                assert(rule.local_lengths@ =~= seq![10u8]);
                assert(rule.mobile_start_digits@ =~= seq!['6', '7', '8', '9']);
                assert(spec_rule(91) == Some(RuleSpec { lengths: seq![10u8], starts: seq!['6', '7', '8', '9'], name: "India"@ }));
                assert(rule.country_code@ == decimal(91));
            }
            Some(rule)
        }
        92 => {
            let rule = PhoneRule {
                country_code: "92",
                local_lengths: &[10],
                mobile_start_digits: &['3'],
                country_name: "Pakistan",
            };
            proof {
                reveal_strlit("92");
                assert(decimal(92) =~= seq!['9', '2']);
                assert(rule.local_lengths@ =~= seq![10u8]);
                assert(rule.mobile_start_digits@ =~= seq!['3']);
                assert(spec_rule(92) == Some(RuleSpec { lengths: seq![10u8], starts: seq!['3'], name: "Pakistan"@ }));
                assert(rule.country_code@ == decimal(92));
            }
            Some(rule)
        }
        880 => {
            let rule = PhoneRule {
                country_code: "880",
                local_lengths: &[10],
                mobile_start_digits: &['1'],
                country_name: "Bangladesh",
            };
            proof {
                reveal_strlit("880");
                assert(decimal(880) =~= seq!['8', '8', '0']);
                assert(rule.local_lengths@ =~= seq![10u8]);
                assert(rule.mobile_start_digits@ =~= seq!['1']);
                assert(spec_rule(880) == Some(RuleSpec { lengths: seq![10u8], starts: seq!['1'], name: "Bangladesh"@ }));
                assert(rule.country_code@ == decimal(880));
            }
            Some(rule)
        }
        94 => {
            let rule = PhoneRule {
                country_code: "94",
                local_lengths: &[9],
                mobile_start_digits: &['7'],
                country_name: "Sri Lanka",
            };
            proof {
                reveal_strlit("94");
                assert(decimal(94) =~= seq!['9', '4']);
                assert(rule.local_lengths@ =~= seq![9u8]);
                assert(rule.mobile_start_digits@ =~= seq!['7']);
                assert(spec_rule(94) == Some(RuleSpec { lengths: seq![9u8], starts: seq!['7'], name: "Sri Lanka"@ }));
                assert(rule.country_code@ == decimal(94));
            }
            Some(rule)
        }
        960 => {
            let rule = PhoneRule {
                country_code: "960",
                local_lengths: &[7],
                mobile_start_digits: &['7', '9'],
                country_name: "Maldives",
            };
            proof {
                reveal_strlit("960");
                assert(decimal(960) =~= seq!['9', '6', '0']);
                assert(rule.local_lengths@ =~= seq![7u8]);
                assert(rule.mobile_start_digits@ =~= seq!['7', '9']);
                assert(spec_rule(960) == Some(RuleSpec { lengths: seq![7u8], starts: seq!['7', '9'], name: "Maldives"@ }));
                assert(rule.country_code@ == decimal(960));
            }
            Some(rule)
        }
        86 => {
            let rule = PhoneRule {
                country_code: "86",
                local_lengths: &[11],
                mobile_start_digits: &['1'],
                country_name: "China",
            };
            proof {
                reveal_strlit("86");
                assert(decimal(86) =~= seq!['8', '6']);
                assert(rule.local_lengths@ =~= seq![11u8]);
                assert(rule.mobile_start_digits@ =~= seq!['1']);
                assert(spec_rule(86) == Some(RuleSpec { lengths: seq![11u8], starts: seq!['1'], name: "China"@ }));
                assert(rule.country_code@ == decimal(86));
            }
            Some(rule)
        }
        81 => {
            let rule = PhoneRule {
                country_code: "81",
                local_lengths: &[10],
                mobile_start_digits: &['7', '8', '9'],
                country_name: "Japan",
            };
            proof {
                reveal_strlit("81");
                assert(decimal(81) =~= seq!['8', '1']);
                assert(rule.local_lengths@ =~= seq![10u8]);
                assert(rule.mobile_start_digits@ =~= seq!['7', '8', '9']);
                assert(spec_rule(81) == Some(RuleSpec { lengths: seq![10u8], starts: seq!['7', '8', '9'], name: "Japan"@ }));
                assert(rule.country_code@ == decimal(81));
            }
            Some(rule)
        }
        82 => {
            let rule = PhoneRule {
                country_code: "82",
                local_lengths: &[10],
                mobile_start_digits: &['1'],
                country_name: "South Korea",
            };
            proof {
                reveal_strlit("82");
                assert(decimal(82) =~= seq!['8', '2']);
                assert(rule.local_lengths@ =~= seq![10u8]);
                assert(rule.mobile_start_digits@ =~= seq!['1']);
                assert(spec_rule(82) == Some(RuleSpec { lengths: seq![10u8], starts: seq!['1'], name: "South Korea"@ }));
                assert(rule.country_code@ == decimal(82));
            }
            Some(rule)
        }
        886 => {
            let rule = PhoneRule {
                country_code: "886",
                local_lengths: &[9],
                mobile_start_digits: &['9'],
                country_name: "Taiwan",
            };
            proof {
                reveal_strlit("886");
                assert(decimal(886) =~= seq!['8', '8', '6']);
                assert(rule.local_lengths@ =~= seq![9u8]);
                assert(rule.mobile_start_digits@ =~= seq!['9']);
                assert(spec_rule(886) == Some(RuleSpec { lengths: seq![9u8], starts: seq!['9'], name: "Taiwan"@ }));
                assert(rule.country_code@ == decimal(886));
            }
            Some(rule)
        }
        65 => {
            let rule = PhoneRule {
                country_code: "65",
                local_lengths: &[8],
                mobile_start_digits: &['8', '9'],
                country_name: "Singapore",
            };
            proof {
                reveal_strlit("65");
                assert(decimal(65) =~= seq!['6', '5']);
                assert(rule.local_lengths@ =~= seq![8u8]);
                assert(rule.mobile_start_digits@ =~= seq!['8', '9']);
                assert(spec_rule(65) == Some(RuleSpec { lengths: seq![8u8], starts: seq!['8', '9'], name: "Singapore"@ }));
                assert(rule.country_code@ == decimal(65));
            }
            Some(rule)
        }
        60 => {
            let rule = PhoneRule {
                country_code: "60",
                local_lengths: &[9, 10],
                mobile_start_digits: &['1'],
                country_name: "Malaysia",
            };
            proof {
                reveal_strlit("60");
                assert(decimal(60) =~= seq!['6', '0']);
                assert(rule.local_lengths@ =~= seq![9u8, 10u8]);
                assert(rule.mobile_start_digits@ =~= seq!['1']);
                assert(spec_rule(60) == Some(RuleSpec { lengths: seq![9u8, 10u8], starts: seq!['1'], name: "Malaysia"@ }));
                assert(rule.country_code@ == decimal(60));
            }
            Some(rule)
        }
        62 => {
            let rule = PhoneRule {
                country_code: "62",
                local_lengths: &[9, 10, 11, 12],
                mobile_start_digits: &['8'],
                country_name: "Indonesia",
            };
            proof {
                reveal_strlit("62");
                assert(decimal(62) =~= seq!['6', '2']);
                assert(rule.local_lengths@ =~= seq![9u8, 10u8, 11u8, 12u8]);
                assert(rule.mobile_start_digits@ =~= seq!['8']);
                assert(spec_rule(62) == Some(RuleSpec { lengths: seq![9u8, 10u8, 11u8, 12u8], starts: seq!['8'], name: "Indonesia"@ }));
                assert(rule.country_code@ == decimal(62));
            }
            Some(rule)
        }
        63 => {
            let rule = PhoneRule {
                country_code: "63",
                local_lengths: &[10],
                mobile_start_digits: &['9'],
                country_name: "Philippines",
            };
            proof {
                reveal_strlit("63");
                assert(decimal(63) =~= seq!['6', '3']);
                assert(rule.local_lengths@ =~= seq![10u8]);
                assert(rule.mobile_start_digits@ =~= seq!['9']);
                assert(spec_rule(63) == Some(RuleSpec { lengths: seq![10u8], starts: seq!['9'], name: "Philippines"@ }));
                assert(rule.country_code@ == decimal(63));
            }
            Some(rule)
        }
        66 => {
            let rule = PhoneRule {
                country_code: "66",
                local_lengths: &[9],
                mobile_start_digits: &['6', '8', '9'],
                country_name: "Thailand",
            };
            proof {
                reveal_strlit("66");
                assert(decimal(66) =~= seq!['6', '6']);
                assert(rule.local_lengths@ =~= seq![9u8]);
                assert(rule.mobile_start_digits@ =~= seq!['6', '8', '9']);
                assert(spec_rule(66) == Some(RuleSpec { lengths: seq![9u8], starts: seq!['6', '8', '9'], name: "Thailand"@ }));
                assert(rule.country_code@ == decimal(66));
            }
            Some(rule)
        }
        84 => {
            let rule = PhoneRule {
                country_code: "84",
                local_lengths: &[9],
                mobile_start_digits: &['3', '5', '7', '8', '9'],
                country_name: "Vietnam",
            };
            proof {
                reveal_strlit("84");
                assert(decimal(84) =~= seq!['8', '4']);
                assert(rule.local_lengths@ =~= seq![9u8]);
                assert(rule.mobile_start_digits@ =~= seq!['3', '5', '7', '8', '9']);
                assert(spec_rule(84) == Some(RuleSpec { lengths: seq![9u8], starts: seq!['3', '5', '7', '8', '9'], name: "Vietnam"@ }));
                assert(rule.country_code@ == decimal(84));
            }
            Some(rule)
        }
        95 => {
            let rule = PhoneRule {
                country_code: "95",
                local_lengths: &[9],
                mobile_start_digits: &['9'],
                country_name: "Myanmar",
            };
            proof {
                reveal_strlit("95");
                assert(decimal(95) =~= seq!['9', '5']);
                assert(rule.local_lengths@ =~= seq![9u8]);
                assert(rule.mobile_start_digits@ =~= seq!['9']);
                assert(spec_rule(95) == Some(RuleSpec { lengths: seq![9u8], starts: seq!['9'], name: "Myanmar"@ }));
                assert(rule.country_code@ == decimal(95));
            }
            Some(rule)
        }
        855 => {
            let rule = PhoneRule {
                country_code: "855",
                local_lengths: &[8, 9],
                mobile_start_digits: &['1', '6', '7', '8', '9'],
                country_name: "Cambodia",
            };
            proof {
                reveal_strlit("855");
                assert(decimal(855) =~= seq!['8', '5', '5']);
                assert(rule.local_lengths@ =~= seq![8u8, 9u8]);
                assert(rule.mobile_start_digits@ =~= seq!['1', '6', '7', '8', '9']);
                assert(spec_rule(855) == Some(RuleSpec { lengths: seq![8u8, 9u8], starts: seq!['1', '6', '7', '8', '9'], name: "Cambodia"@ }));
                assert(rule.country_code@ == decimal(855));
            }
            Some(rule)
        }
        976 => {
            let rule = PhoneRule {
                country_code: "976",
                local_lengths: &[8],
                mobile_start_digits: &['6', '8', '9'],
                country_name: "Mongolia",
            };
            proof {
                reveal_strlit("976");
                assert(decimal(976) =~= seq!['9', '7', '6']);
                assert(rule.local_lengths@ =~= seq![8u8]);
                assert(rule.mobile_start_digits@ =~= seq!['6', '8', '9']);
                assert(spec_rule(976) == Some(RuleSpec { lengths: seq![8u8], starts: seq!['6', '8', '9'], name: "Mongolia"@ }));
                assert(rule.country_code@ == decimal(976));
            }
            Some(rule)
        }
        44 => {
            let rule = PhoneRule {
                country_code: "44",
                local_lengths: &[10],
                mobile_start_digits: &['7'],
                country_name: "UK",
            };
            proof {
                reveal_strlit("44");
                assert(decimal(44) =~= seq!['4', '4']);
                assert(rule.local_lengths@ =~= seq![10u8]);
                assert(rule.mobile_start_digits@ =~= seq!['7']);
                assert(spec_rule(44) == Some(RuleSpec { lengths: seq![10u8], starts: seq!['7'], name: "UK"@ }));
                assert(rule.country_code@ == decimal(44));
            }
            Some(rule)
        }
        33 => {
            let rule = PhoneRule {
                country_code: "33",
                local_lengths: &[9],
                mobile_start_digits: &['6', '7'],
                country_name: "France",
            };
            proof {
                reveal_strlit("33");
                assert(decimal(33) =~= seq!['3', '3']);
                assert(rule.local_lengths@ =~= seq![9u8]);
                assert(rule.mobile_start_digits@ =~= seq!['6', '7']);
                assert(spec_rule(33) == Some(RuleSpec { lengths: seq![9u8], starts: seq!['6', '7'], name: "France"@ }));
                assert(rule.country_code@ == decimal(33));
            }
            Some(rule)
        }
        49 => {
            let rule = PhoneRule {
                country_code: "49",
                local_lengths: &[10, 11],
                mobile_start_digits: &['1'],
                country_name: "Germany",
            };
            proof {
                reveal_strlit("49");
                assert(decimal(49) =~= seq!['4', '9']);
                assert(rule.local_lengths@ =~= seq![10u8, 11u8]);
                assert(rule.mobile_start_digits@ =~= seq!['1']);
                assert(spec_rule(49) == Some(RuleSpec { lengths: seq![10u8, 11u8], starts: seq!['1'], name: "Germany"@ }));
                assert(rule.country_code@ == decimal(49));
            }
            Some(rule)
        }
        39 => {
            let rule = PhoneRule {
                country_code: "39",
                local_lengths: &[10],
                mobile_start_digits: &['3'],
                country_name: "Italy",
            };
            proof {
                reveal_strlit("39");
                assert(decimal(39) =~= seq!['3', '9']);
                assert(rule.local_lengths@ =~= seq![10u8]);
                assert(rule.mobile_start_digits@ =~= seq!['3']);
                assert(spec_rule(39) == Some(RuleSpec { lengths: seq![10u8], starts: seq!['3'], name: "Italy"@ }));
                assert(rule.country_code@ == decimal(39));
            }
            Some(rule)
        }
        34 => {
            let rule = PhoneRule {
                country_code: "34",
                local_lengths: &[9],
                mobile_start_digits: &['6', '7'],
                country_name: "Spain",
            };
            proof {
                reveal_strlit("34");
                assert(decimal(34) =~= seq!['3', '4']);
                assert(rule.local_lengths@ =~= seq![9u8]);
                assert(rule.mobile_start_digits@ =~= seq!['6', '7']);
                assert(spec_rule(34) == Some(RuleSpec { lengths: seq![9u8], starts: seq!['6', '7'], name: "Spain"@ }));
                assert(rule.country_code@ == decimal(34));
            }
            Some(rule)
        }
        31 => {
            let rule = PhoneRule {
                country_code: "31",
                local_lengths: &[9],
                mobile_start_digits: &['6'],
                country_name: "Netherlands",
            };
            proof {
                reveal_strlit("31");
                assert(decimal(31) =~= seq!['3', '1']);
                assert(rule.local_lengths@ =~= seq![9u8]);
                assert(rule.mobile_start_digits@ =~= seq!['6']);
                assert(spec_rule(31) == Some(RuleSpec { lengths: seq![9u8], starts: seq!['6'], name: "Netherlands"@ }));
                assert(rule.country_code@ == decimal(31));
            }
            Some(rule)
        }
        32 => {
            let rule = PhoneRule {
                country_code: "32",
                local_lengths: &[9],
                mobile_start_digits: &[],
                country_name: "Belgium",
            };
            proof {
                reveal_strlit("32");
                assert(decimal(32) =~= seq!['3', '2']);
                assert(rule.local_lengths@ =~= seq![9u8]);
                assert(rule.mobile_start_digits@ =~= seq![]);
                assert(spec_rule(32) == Some(RuleSpec { lengths: seq![9u8], starts: seq![], name: "Belgium"@ }));
                assert(rule.country_code@ == decimal(32));
            }
            Some(rule)
        }
        41 => {
            let rule = PhoneRule {
                country_code: "41",
                local_lengths: &[9],
                mobile_start_digits: &['7'],
                country_name: "Switzerland",
            };
            proof {
                reveal_strlit("41");
                assert(decimal(41) =~= seq!['4', '1']);
                assert(rule.local_lengths@ =~= seq![9u8]);
                assert(rule.mobile_start_digits@ =~= seq!['7']);
                assert(spec_rule(41) == Some(RuleSpec { lengths: seq![9u8], starts: seq!['7'], name: "Switzerland"@ }));
                assert(rule.country_code@ == decimal(41));
            }
            Some(rule)
        }
        43 => {
            let rule = PhoneRule {
                country_code: "43",
                local_lengths: &[10],
                mobile_start_digits: &['6'],
                country_name: "Austria",
            };
            proof {
                reveal_strlit("43");
                assert(decimal(43) =~= seq!['4', '3']);
                assert(rule.local_lengths@ =~= seq![10u8]);
                assert(rule.mobile_start_digits@ =~= seq!['6']);
                assert(spec_rule(43) == Some(RuleSpec { lengths: seq![10u8], starts: seq!['6'], name: "Austria"@ }));
                assert(rule.country_code@ == decimal(43));
            }
            Some(rule)
        }
        47 => {
            let rule = PhoneRule {
                country_code: "47",
                local_lengths: &[8],
                mobile_start_digits: &['4', '9'],
                country_name: "Norway",
            };
            proof {
                reveal_strlit("47");
                assert(decimal(47) =~= seq!['4', '7']);
                assert(rule.local_lengths@ =~= seq![8u8]);
                assert(rule.mobile_start_digits@ =~= seq!['4', '9']);
                assert(spec_rule(47) == Some(RuleSpec { lengths: seq![8u8], starts: seq!['4', '9'], name: "Norway"@ }));
                assert(rule.country_code@ == decimal(47));
            }
            Some(rule)
        }
        48 => {
            let rule = PhoneRule {
                country_code: "48",
                local_lengths: &[9],
                mobile_start_digits: &[],
                country_name: "Poland",
            };
            proof {
                reveal_strlit("48");
                assert(decimal(48) =~= seq!['4', '8']);
                assert(rule.local_lengths@ =~= seq![9u8]);
                assert(rule.mobile_start_digits@ =~= seq![]);
                assert(spec_rule(48) == Some(RuleSpec { lengths: seq![9u8], starts: seq![], name: "Poland"@ }));
                assert(rule.country_code@ == decimal(48));
            }
            Some(rule)
        }
        30 => {
            let rule = PhoneRule {
                country_code: "30",
                local_lengths: &[10],
                mobile_start_digits: &['6'],
                country_name: "Greece",
            };
            proof {
                reveal_strlit("30");
                assert(decimal(30) =~= seq!['3', '0']);
                assert(rule.local_lengths@ =~= seq![10u8]);
                assert(rule.mobile_start_digits@ =~= seq!['6']);
                assert(spec_rule(30) == Some(RuleSpec { lengths: seq![10u8], starts: seq!['6'], name: "Greece"@ }));
                assert(rule.country_code@ == decimal(30));
            }
            Some(rule)
        }
        420 => {
            let rule = PhoneRule {
                country_code: "420",
                local_lengths: &[9],
                mobile_start_digits: &['6', '7'],
                country_name: "Czech Republic",
            };
            proof {
                reveal_strlit("420");
                assert(decimal(420) =~= seq!['4', '2', '0']);
                assert(rule.local_lengths@ =~= seq![9u8]);
                assert(rule.mobile_start_digits@ =~= seq!['6', '7']);
                assert(spec_rule(420) == Some(RuleSpec { lengths: seq![9u8], starts: seq!['6', '7'], name: "Czech Republic"@ }));
                assert(rule.country_code@ == decimal(420));
            }
            Some(rule)
        }
        46 => {
            let rule = PhoneRule {
                country_code: "46",
                local_lengths: &[9],
                mobile_start_digits: &['7'],
                country_name: "Sweden",
            };
            proof {
                reveal_strlit("46");
                assert(decimal(46) =~= seq!['4', '6']);
                assert(rule.local_lengths@ =~= seq![9u8]);
                assert(rule.mobile_start_digits@ =~= seq!['7']);
                assert(spec_rule(46) == Some(RuleSpec { lengths: seq![9u8], starts: seq!['7'], name: "Sweden"@ }));
                assert(rule.country_code@ == decimal(46));
            }
            Some(rule)
        }
        45 => {
            let rule = PhoneRule {
                country_code: "45",
                local_lengths: &[8],
                mobile_start_digits: &[],
                country_name: "Denmark",
            };
            proof {
                reveal_strlit("45");
                assert(decimal(45) =~= seq!['4', '5']);
                assert(rule.local_lengths@ =~= seq![8u8]);
                assert(rule.mobile_start_digits@ =~= seq![]);
                assert(spec_rule(45) == Some(RuleSpec { lengths: seq![8u8], starts: seq![], name: "Denmark"@ }));
                assert(rule.country_code@ == decimal(45));
            }
            Some(rule)
        }
        40 => {
            let rule = PhoneRule {
                country_code: "40",
                local_lengths: &[9],
                mobile_start_digits: &['7'],
                country_name: "Romania",
            };
            proof {
                reveal_strlit("40");
                assert(decimal(40) =~= seq!['4', '0']);
                assert(rule.local_lengths@ =~= seq![9u8]);
                assert(rule.mobile_start_digits@ =~= seq!['7']);
                assert(spec_rule(40) == Some(RuleSpec { lengths: seq![9u8], starts: seq!['7'], name: "Romania"@ }));
                assert(rule.country_code@ == decimal(40));
            }
            Some(rule)
        }
        36 => {
            let rule = PhoneRule {
                country_code: "36",
                local_lengths: &[9],
                mobile_start_digits: &[],
                country_name: "Hungary",
            };
            proof {
                reveal_strlit("36");
                assert(decimal(36) =~= seq!['3', '6']);
                assert(rule.local_lengths@ =~= seq![9u8]);
                assert(rule.mobile_start_digits@ =~= seq![]);
                assert(spec_rule(36) == Some(RuleSpec { lengths: seq![9u8], starts: seq![], name: "Hungary"@ }));
                assert(rule.country_code@ == decimal(36));
            }
            Some(rule)
        }
        380 => {
            let rule = PhoneRule {
                country_code: "380",
                local_lengths: &[9],
                mobile_start_digits: &[],
                country_name: "Ukraine",
            };
            proof {
                reveal_strlit("380");
                assert(decimal(380) =~= seq!['3', '8', '0']);
                assert(rule.local_lengths@ =~= seq![9u8]);
                assert(rule.mobile_start_digits@ =~= seq![]);
                assert(spec_rule(380) == Some(RuleSpec { lengths: seq![9u8], starts: seq![], name: "Ukraine"@ }));
                assert(rule.country_code@ == decimal(380));
            }
            Some(rule)
        }
        1 => {
            let rule = PhoneRule {
                country_code: "1",
                local_lengths: &[10],
                mobile_start_digits: &[],
                country_name: "USA/Canada",
            };
            proof {
                reveal_strlit("1");
                assert(decimal(1) =~= seq!['1']);
                assert(rule.local_lengths@ =~= seq![10u8]);
                assert(rule.mobile_start_digits@ =~= seq![]);
                assert(spec_rule(1) == Some(RuleSpec { lengths: seq![10u8], starts: seq![], name: "USA/Canada"@ }));
                assert(rule.country_code@ == decimal(1));
            }
            Some(rule)
        }
        52 => {
            let rule = PhoneRule {
                country_code: "52",
                local_lengths: &[10],
                mobile_start_digits: &[],
                country_name: "Mexico",
            };
            proof {
                reveal_strlit("52");
                assert(decimal(52) =~= seq!['5', '2']);
                assert(rule.local_lengths@ =~= seq![10u8]);
                assert(rule.mobile_start_digits@ =~= seq![]);
                assert(spec_rule(52) == Some(RuleSpec { lengths: seq![10u8], starts: seq![], name: "Mexico"@ }));
                assert(rule.country_code@ == decimal(52));
            }
            Some(rule)
        }
        55 => {
            let rule = PhoneRule {
                country_code: "55",
                local_lengths: &[11],
                mobile_start_digits: &[],
                country_name: "Brazil",
            };
            proof {
                reveal_strlit("55");
                assert(decimal(55) =~= seq!['5', '5']);
                assert(rule.local_lengths@ =~= seq![11u8]);
                assert(rule.mobile_start_digits@ =~= seq![]);
                assert(spec_rule(55) == Some(RuleSpec { lengths: seq![11u8], starts: seq![], name: "Brazil"@ }));
                assert(rule.country_code@ == decimal(55));
            }
            Some(rule)
        }
        57 => {
            let rule = PhoneRule {
                country_code: "57",
                local_lengths: &[10],
                mobile_start_digits: &['3'],
                country_name: "Colombia",
            };
            proof {
                reveal_strlit("57");
                assert(decimal(57) =~= seq!['5', '7']);
                assert(rule.local_lengths@ =~= seq![10u8]);
                assert(rule.mobile_start_digits@ =~= seq!['3']);
                assert(spec_rule(57) == Some(RuleSpec { lengths: seq![10u8], starts: seq!['3'], name: "Colombia"@ }));
                assert(rule.country_code@ == decimal(57));
            }
            Some(rule)
        }
        54 => {
            let rule = PhoneRule {
                country_code: "54",
                local_lengths: &[10],
                mobile_start_digits: &['9'],
                country_name: "Argentina",
            };
            proof {
                reveal_strlit("54");
                assert(decimal(54) =~= seq!['5', '4']);
                assert(rule.local_lengths@ =~= seq![10u8]);
                assert(rule.mobile_start_digits@ =~= seq!['9']);
                assert(spec_rule(54) == Some(RuleSpec { lengths: seq![10u8], starts: seq!['9'], name: "Argentina"@ }));
                assert(rule.country_code@ == decimal(54));
            }
            Some(rule)
        }
        56 => {
            let rule = PhoneRule {
                country_code: "56",
                local_lengths: &[9],
                mobile_start_digits: &['9'],
                country_name: "Chile",
            };
            proof {
                reveal_strlit("56");
                assert(decimal(56) =~= seq!['5', '6']);
                assert(rule.local_lengths@ =~= seq![9u8]);
                assert(rule.mobile_start_digits@ =~= seq!['9']);
                assert(spec_rule(56) == Some(RuleSpec { lengths: seq![9u8], starts: seq!['9'], name: "Chile"@ }));
                assert(rule.country_code@ == decimal(56));
            }
            Some(rule)
        }
        58 => {
            let rule = PhoneRule {
                country_code: "58",
                local_lengths: &[10],
                mobile_start_digits: &['4'],
                country_name: "Venezuela",
            };
            proof {
                reveal_strlit("58");
                assert(decimal(58) =~= seq!['5', '8']);
                assert(rule.local_lengths@ =~= seq![10u8]);
                assert(rule.mobile_start_digits@ =~= seq!['4']);
                assert(spec_rule(58) == Some(RuleSpec { lengths: seq![10u8], starts: seq!['4'], name: "Venezuela"@ }));
                assert(rule.country_code@ == decimal(58));
            }
            Some(rule)
        }
        51 => {
            let rule = PhoneRule {
                country_code: "51",
                local_lengths: &[9],
                mobile_start_digits: &['9'],
                country_name: "Peru",
            };
            proof {
                reveal_strlit("51");
                assert(decimal(51) =~= seq!['5', '1']);
                assert(rule.local_lengths@ =~= seq![9u8]);
                assert(rule.mobile_start_digits@ =~= seq!['9']);
                assert(spec_rule(51) == Some(RuleSpec { lengths: seq![9u8], starts: seq!['9'], name: "Peru"@ }));
                assert(rule.country_code@ == decimal(51));
            }
            Some(rule)
        }
        593 => {
            let rule = PhoneRule {
                country_code: "593",
                local_lengths: &[9],
                mobile_start_digits: &['9'],
                country_name: "Ecuador",
            };
            proof {
                reveal_strlit("593");
                assert(decimal(593) =~= seq!['5', '9', '3']);
                assert(rule.local_lengths@ =~= seq![9u8]);
                assert(rule.mobile_start_digits@ =~= seq!['9']);
                assert(spec_rule(593) == Some(RuleSpec { lengths: seq![9u8], starts: seq!['9'], name: "Ecuador"@ }));
                assert(rule.country_code@ == decimal(593));
            }
            Some(rule)
        }
        53 => {
            let rule = PhoneRule {
                country_code: "53",
                local_lengths: &[8],
                mobile_start_digits: &['5', '6'],
                country_name: "Cuba",
            };
            proof {
                reveal_strlit("53");
                assert(decimal(53) =~= seq!['5', '3']);
                assert(rule.local_lengths@ =~= seq![8u8]);
                assert(rule.mobile_start_digits@ =~= seq!['5', '6']);
                assert(spec_rule(53) == Some(RuleSpec { lengths: seq![8u8], starts: seq!['5', '6'], name: "Cuba"@ }));
                assert(rule.country_code@ == decimal(53));
            }
            Some(rule)
        }
        27 => {
            let rule = PhoneRule {
                country_code: "27",
                local_lengths: &[9],
                mobile_start_digits: &['6', '7', '8'],
                country_name: "South Africa",
            };
            proof {
                reveal_strlit("27");
                assert(decimal(27) =~= seq!['2', '7']);
                assert(rule.local_lengths@ =~= seq![9u8]);
                assert(rule.mobile_start_digits@ =~= seq!['6', '7', '8']);
                assert(spec_rule(27) == Some(RuleSpec { lengths: seq![9u8], starts: seq!['6', '7', '8'], name: "South Africa"@ }));
                assert(rule.country_code@ == decimal(27));
            }
            Some(rule)
        }
        234 => {
            let rule = PhoneRule {
                country_code: "234",
                local_lengths: &[10],
                mobile_start_digits: &['7', '8', '9'],
                country_name: "Nigeria",
            };
            proof {
                reveal_strlit("234");
                assert(decimal(234) =~= seq!['2', '3', '4']);
                assert(rule.local_lengths@ =~= seq![10u8]);
                assert(rule.mobile_start_digits@ =~= seq!['7', '8', '9']);
                assert(spec_rule(234) == Some(RuleSpec { lengths: seq![10u8], starts: seq!['7', '8', '9'], name: "Nigeria"@ }));
                assert(rule.country_code@ == decimal(234));
            }
            Some(rule)
        }
        254 => {
            let rule = PhoneRule {
                country_code: "254",
                local_lengths: &[9],
                mobile_start_digits: &['1', '7'],
                country_name: "Kenya",
            };
            proof {
                reveal_strlit("254");
                assert(decimal(254) =~= seq!['2', '5', '4']);
                assert(rule.local_lengths@ =~= seq![9u8]);
                assert(rule.mobile_start_digits@ =~= seq!['1', '7']);
                assert(spec_rule(254) == Some(RuleSpec { lengths: seq![9u8], starts: seq!['1', '7'], name: "Kenya"@ }));
                assert(rule.country_code@ == decimal(254));
            }
            Some(rule)
        }
        233 => {
            let rule = PhoneRule {
                country_code: "233",
                local_lengths: &[9],
                mobile_start_digits: &['2', '5'],
                country_name: "Ghana",
            };
            proof {
                reveal_strlit("233");
                assert(decimal(233) =~= seq!['2', '3', '3']);
                assert(rule.local_lengths@ =~= seq![9u8]);
                assert(rule.mobile_start_digits@ =~= seq!['2', '5']);
                assert(spec_rule(233) == Some(RuleSpec { lengths: seq![9u8], starts: seq!['2', '5'], name: "Ghana"@ }));
                assert(rule.country_code@ == decimal(233));
            }
            Some(rule)
        }
        251 => {
            let rule = PhoneRule {
                country_code: "251",
                local_lengths: &[9],
                mobile_start_digits: &['7', '9'],
                country_name: "Ethiopia",
            };
            proof {
                reveal_strlit("251");
                assert(decimal(251) =~= seq!['2', '5', '1']);
                assert(rule.local_lengths@ =~= seq![9u8]);
                assert(rule.mobile_start_digits@ =~= seq!['7', '9']);
                assert(spec_rule(251) == Some(RuleSpec { lengths: seq![9u8], starts: seq!['7', '9'], name: "Ethiopia"@ }));
                assert(rule.country_code@ == decimal(251));
            }
            Some(rule)
        }
        255 => {
            let rule = PhoneRule {
                country_code: "255",
                local_lengths: &[9],
                mobile_start_digits: &['6', '7'],
                country_name: "Tanzania",
            };
            proof {
                reveal_strlit("255");
                assert(decimal(255) =~= seq!['2', '5', '5']);
                assert(rule.local_lengths@ =~= seq![9u8]);
                assert(rule.mobile_start_digits@ =~= seq!['6', '7']);
                assert(spec_rule(255) == Some(RuleSpec { lengths: seq![9u8], starts: seq!['6', '7'], name: "Tanzania"@ }));
                assert(rule.country_code@ == decimal(255));
            }
            Some(rule)
        }
        256 => {
            let rule = PhoneRule {
                country_code: "256",
                local_lengths: &[9],
                mobile_start_digits: &['7'],
                country_name: "Uganda",
            };
            proof {
                reveal_strlit("256");
                assert(decimal(256) =~= seq!['2', '5', '6']);
                assert(rule.local_lengths@ =~= seq![9u8]);
                assert(rule.mobile_start_digits@ =~= seq!['7']);
                assert(spec_rule(256) == Some(RuleSpec { lengths: seq![9u8], starts: seq!['7'], name: "Uganda"@ }));
                assert(rule.country_code@ == decimal(256));
            }
            Some(rule)
        }
        237 => {
            let rule = PhoneRule {
                country_code: "237",
                local_lengths: &[9],
                mobile_start_digits: &['6'],
                country_name: "Cameroon",
            };
            proof {
                reveal_strlit("237");
                assert(decimal(237) =~= seq!['2', '3', '7']);
                assert(rule.local_lengths@ =~= seq![9u8]);
                assert(rule.mobile_start_digits@ =~= seq!['6']);
                assert(spec_rule(237) == Some(RuleSpec { lengths: seq![9u8], starts: seq!['6'], name: "Cameroon"@ }));
                assert(rule.country_code@ == decimal(237));
            }
            Some(rule)
        }
        225 => {
            let rule = PhoneRule {
                country_code: "225",
                local_lengths: &[10],
                mobile_start_digits: &[],
                country_name: "Ivory Coast",
            };
            proof {
                reveal_strlit("225");
                assert(decimal(225) =~= seq!['2', '2', '5']);
                assert(rule.local_lengths@ =~= seq![10u8]);
                assert(rule.mobile_start_digits@ =~= seq![]);
                assert(spec_rule(225) == Some(RuleSpec { lengths: seq![10u8], starts: seq![], name: "Ivory Coast"@ }));
                assert(rule.country_code@ == decimal(225));
            }
            Some(rule)
        }
        221 => {
            let rule = PhoneRule {
                country_code: "221",
                local_lengths: &[9],
                mobile_start_digits: &['7'],
                country_name: "Senegal",
            };
            proof {
                reveal_strlit("221");
                assert(decimal(221) =~= seq!['2', '2', '1']);
                assert(rule.local_lengths@ =~= seq![9u8]);
                assert(rule.mobile_start_digits@ =~= seq!['7']);
                assert(spec_rule(221) == Some(RuleSpec { lengths: seq![9u8], starts: seq!['7'], name: "Senegal"@ }));
                assert(rule.country_code@ == decimal(221));
            }
            Some(rule)
        }
        252 => {
            let rule = PhoneRule {
                country_code: "252",
                local_lengths: &[9],
                mobile_start_digits: &['6', '7'],
                country_name: "Somalia",
            };
            proof {
                reveal_strlit("252");
                assert(decimal(252) =~= seq!['2', '5', '2']);
                assert(rule.local_lengths@ =~= seq![9u8]);
                assert(rule.mobile_start_digits@ =~= seq!['6', '7']);
                assert(spec_rule(252) == Some(RuleSpec { lengths: seq![9u8], starts: seq!['6', '7'], name: "Somalia"@ }));
                assert(rule.country_code@ == decimal(252));
            }
            Some(rule)
        }
        250 => {
            let rule = PhoneRule {
                country_code: "250",
                local_lengths: &[9],
                mobile_start_digits: &['7'],
                country_name: "Rwanda",
            };
            proof {
                reveal_strlit("250");
                assert(decimal(250) =~= seq!['2', '5', '0']);
                assert(rule.local_lengths@ =~= seq![9u8]);
                assert(rule.mobile_start_digits@ =~= seq!['7']);
                assert(spec_rule(250) == Some(RuleSpec { lengths: seq![9u8], starts: seq!['7'], name: "Rwanda"@ }));
                assert(rule.country_code@ == decimal(250));
            }
            Some(rule)
        }
        61 => {
            let rule = PhoneRule {
                country_code: "61",
                local_lengths: &[9],
                mobile_start_digits: &['4'],
                country_name: "Australia",
            };
            proof {
                reveal_strlit("61");
                assert(decimal(61) =~= seq!['6', '1']);
                assert(rule.local_lengths@ =~= seq![9u8]);
                assert(rule.mobile_start_digits@ =~= seq!['4']);
                assert(spec_rule(61) == Some(RuleSpec { lengths: seq![9u8], starts: seq!['4'], name: "Australia"@ }));
                assert(rule.country_code@ == decimal(61));
            }
            Some(rule)
        }
        64 => {
            let rule = PhoneRule {
                country_code: "64",
                local_lengths: &[8, 9, 10],
                mobile_start_digits: &['2'],
                country_name: "New Zealand",
            };
            proof {
                reveal_strlit("64");
                assert(decimal(64) =~= seq!['6', '4']);
                assert(rule.local_lengths@ =~= seq![8u8, 9u8, 10u8]);
                assert(rule.mobile_start_digits@ =~= seq!['2']);
                assert(spec_rule(64) == Some(RuleSpec { lengths: seq![8u8, 9u8, 10u8], starts: seq!['2'], name: "New Zealand"@ }));
                assert(rule.country_code@ == decimal(64));
            }
            Some(rule)
        }
        _ => None,
    }
}

/// The whole table, in its order.
pub fn phone_rules() -> (v: Vec<PhoneRule>)
    ensures
        v@.len() == table_codes().len(),
        forall|i: int| 0 <= i < v@.len() ==> (#[trigger] v@[i]).is_rule_for(table_codes()[i]),
{
    let codes: [u16; 81] = [965, 966, 971, 973, 974, 968, 962, 961, 970, 964, 963, 967, 20, 218, 216, 212, 213, 249, 98, 90, 972, 91, 92, 880, 94, 960, 86, 81, 82, 886, 65, 60, 62, 63, 66, 84, 95, 855, 976, 44, 33, 49, 39, 34, 31, 32, 41, 43, 47, 48, 30, 420, 46, 45, 40, 36, 380, 1, 52, 55, 57, 54, 56, 58, 51, 593, 53, 27, 234, 254, 233, 251, 255, 256, 237, 225, 221, 252, 250, 61, 64];
    assert(codes@ =~= table_codes().map_values(|c: nat| c as u16));
    let mut v: Vec<PhoneRule> = Vec::new();
    let mut i: usize = 0;
    while i < codes.len()
        invariant
            i <= codes.len(),
            codes@ == table_codes().map_values(|c: nat| c as u16),
            forall|k: int| 0 <= k < table_codes().len() ==> spec_rule(#[trigger] table_codes()[k]) is Some
                && table_codes()[k] < 1000,
            v@.len() == i,
            forall|k: int| 0 <= k < i ==> (#[trigger] v@[k]).is_rule_for(table_codes()[k]),
        decreases codes.len() - i,
    {
        let code = codes[i];
        match phone_rule(code) {
            Some(rule) => {
                v.push(rule);
            },
            None => {},
        }
        i = i + 1;
    }
    v
}

} // verus!

use uywi::{Concept, ConceptOrWord, Error, Length, Script, Word};

enum Expected {
    Concept(usize, usize),
    Word(usize, usize, u8, u8),
    Error(Error),
}

const CASES: [(&str, Expected); 442] = [
    ("0o9", Expected::Word(2, 716, 0, 0)),
    ("0ıOıSıY", Expected::Word(4, 3158920, 1, 3)),
    ("0ııSıY", Expected::Word(3, 77046, 2, 3)),
    ("0ııdız", Expected::Word(3, 37319, 2, 3)),
    ("0ııhdız", Expected::Word(4, 1530040, 2, 3)),
    ("0ııp", Expected::Word(2, 1362, 1, 1)),
    ("0ııwdız", Expected::Word(4, 1530039, 2, 3)),
    ("1aıd", Expected::Error(Error::WordInvalid)),
    ("1ohho", Expected::Word(2, 40, 2, 0)),
    ("1oho", Expected::Error(Error::WordInvalid)),
    ("1ıd", Expected::Word(2, 986, 0, 1)),
    ("1ııd", Expected::Word(2, 986, 1, 1)),
    ("2", Expected::Error(Error::WordInvalid)),
    ("22", Expected::Error(Error::WordInvalid)),
    ("222?wo", Expected::Error(Error::WordInvalid)),
    ("22lYohYhY", Expected::Error(Error::WordInvalid)),
    ("22o?aa", Expected::Error(Error::WordInvalid)),
    ("2?", Expected::Concept(2, 1766)),
    ("2YloYl", Expected::Error(Error::WordInvalid)),
    ("2h2waı", Expected::Error(Error::WordInvalid)),
    ("2h?l2hYı", Expected::Error(Error::WordInvalid)),
    ("2hY", Expected::Concept(3, 75979)),
    ("2hoYh", Expected::Error(Error::WordInvalid)),
    ("2hol", Expected::Error(Error::WordInvalid)),
    ("2hıa2Ya", Expected::Error(Error::WordInvalid)),
    ("2l?", Expected::Concept(3, 74213)),
    ("2lYlwho2", Expected::Error(Error::WordInvalid)),
    ("2o222Y", Expected::Error(Error::WordInvalid)),
    ("2o77ıT", Expected::Word(3, 41719, 1, 1)),
    ("2o9", Expected::Word(2, 692, 0, 0)),
    ("2oY", Expected::Word(2, 1809, 0, 0)),
    ("2opobom", Expected::Word(4, 2451750, 1, 0)),
    ("2w", Expected::Concept(2, 1852)),
    ("2w?", Expected::Concept(3, 74173)),
    ("2ıVı0o7", Expected::Word(4, 896493, 1, 2)),
    ("2ıa?wı", Expected::Error(Error::WordInvalid)),
    ("2ıl?ıaY", Expected::Error(Error::WordInvalid)),
    ("2ısoo7", Expected::Word(3, 21858, 3, 2)),
    ("3oOo77ow", Expected::Word(4, 3210334, 6, 0)),
    ("3oOo7ow", Expected::Word(4, 3210334, 1, 0)),
    ("4oPPo", Expected::Word(2, 1086, 2, 0)),
    ("4owooPıS", Expected::Word(4, 1278709, 5, 1)),
    ("4owooPıY", Expected::Word(4, 3128177, 5, 1)),
    ("4ı9ı2HoT", Expected::Error(Error::WordInvalid)),
    ("4ı9ıHHoT", Expected::Word(4, 1722139, 6, 2)),
    ("4ı9ıHoT", Expected::Word(4, 1722139, 1, 2)),
    ("6o7Bıs", Expected::Word(4, 1385609, 0, 1)),
    ("6oo7Bıs", Expected::Word(4, 1385609, 2, 1)),
    ("6oowon", Expected::Word(3, 62707, 2, 0)),
    ("6oozon", Expected::Word(3, 62728, 2, 0)),
    ("7osoo0ıV", Expected::Word(4, 2174249, 5, 1)),
    ("7osoo2ıV", Expected::Word(4, 2173264, 5, 1)),
    ("7osooıV", Expected::Error(Error::WordInvalid)),
    ("8oP?o", Expected::Error(Error::WordInvalid)),
    ("8oPPo", Expected::Word(2, 1085, 2, 0)),
    ("8obı", Expected::Error(Error::WordInvalid)),
    ("8obı6", Expected::Word(3, 51020, 0, 1)),
    ("8obıY", Expected::Word(3, 76262, 0, 1)),
    ("8ıBııLıh", Expected::Word(4, 17083, 5, 3)),
    ("8ıBııLıp", Expected::Word(4, 2314232, 5, 3)),
    ("9GıZZı", Expected::Error(Error::WordInvalid)),
    ("9o2otto", Expected::Word(3, 44145, 4, 0)),
    ("9ıGıZZı", Expected::Word(3, 35123, 4, 3)),
    ("9ıY6ıD", Expected::Word(4, 1588791, 0, 3)),
    ("9ıım", Expected::Word(2, 1438, 1, 1)),
    ("?1", Expected::Concept(2, 1634)),
    ("?2", Expected::Concept(2, 43)),
    ("?2?o?llY2", Expected::Error(Error::WordInvalid)),
    ("?2ı?a?Y", Expected::Error(Error::WordInvalid)),
    ("??", Expected::Error(Error::WordInvalid)),
    ("??lhwhohı", Expected::Error(Error::WordInvalid)),
    ("?Yaaıo?Y2", Expected::Error(Error::WordInvalid)),
    ("?YhYh2loY", Expected::Error(Error::WordInvalid)),
    ("?Yl2", Expected::Concept(4, 75686)),
    ("?aY22h", Expected::Error(Error::WordInvalid)),
    ("?hY", Expected::Concept(3, 75853)),
    ("?l", Expected::Concept(2, 1720)),
    ("?laa?", Expected::Error(Error::WordInvalid)),
    ("?laho2o", Expected::Error(Error::WordInvalid)),
    ("?lw2", Expected::Concept(4, 74086)),
    ("?lwa", Expected::Error(Error::WordInvalid)),
    ("?o1", Expected::Word(2, 1634, 0, 0)),
    ("?o6hoom", Expected::Word(4, 2443588, 3, 0)),
    ("?o9", Expected::Word(2, 688, 0, 0)),
    ("?oo9", Expected::Word(2, 688, 1, 0)),
    ("?oog", Expected::Word(2, 430, 1, 0)),
    ("?oot", Expected::Word(2, 1032, 1, 0)),
    ("?ot", Expected::Word(2, 1032, 0, 0)),
    ("?wlw?Y?h", Expected::Error(Error::WordInvalid)),
    ("?wlı?o?h", Expected::Error(Error::WordInvalid)),
    ("?ı1", Expected::Word(2, 1634, 0, 1)),
    ("?ı6hoom", Expected::Word(4, 2443588, 3, 2)),
    ("?ı7ııS", Expected::Word(3, 30716, 3, 3)),
    ("?ıPQoTTo", Expected::Word(4, 1703698, 4, 2)),
    ("?ıQoTTo", Expected::Word(3, 41554, 4, 2)),
    ("?ıf3od", Expected::Word(4, 1629616, 0, 2)),
    ("?ımmı", Expected::Word(2, 1419, 2, 1)),
    ("?ınoı4", Expected::Error(Error::WordInvalid)),
    ("?ını4", Expected::Word(3, 14483, 0, 3)),
    ("?ınıı4", Expected::Word(3, 14483, 3, 3)),
    ("?ıoaı?", Expected::Error(Error::WordInvalid)),
    ("?ıoolwoı", Expected::Error(Error::WordInvalid)),
    ("?ıoııS", Expected::Error(Error::WordInvalid)),
    ("?ısoH", Expected::Word(3, 3631, 0, 2)),
    ("?ıwwı", Expected::Word(2, 1849, 2, 1)),
    ("BSoP", Expected::Error(Error::WordInvalid)),
    ("BaSoP", Expected::Error(Error::WordInvalid)),
    ("BoSoP", Expected::Word(3, 46387, 0, 0)),
    ("BıXXıp", Expected::Word(3, 57253, 1, 3)),
    ("BıXıp", Expected::Word(3, 57253, 0, 3)),
    ("GoPlıg", Expected::Word(4, 762748, 0, 1)),
    ("GoPıg", Expected::Word(3, 18589, 0, 1)),
    ("GoPııg", Expected::Word(3, 18589, 3, 1)),
    ("Godıs", Expected::Word(3, 33034, 0, 1)),
    ("Gohıs", Expected::Word(3, 33014, 0, 1)),
    ("Gomıddı", Expected::Word(3, 40269, 4, 1)),
    ("Gısoo7", Expected::Word(3, 22194, 3, 2)),
    ("Ho2ok", Expected::Word(3, 7437, 0, 0)),
    ("Ho3oSoob", Expected::Word(4, 2378793, 7, 0)),
    ("HoloSoob", Expected::Word(4, 2378818, 7, 0)),
    ("Hoo", Expected::Error(Error::WordInvalid)),
    ("HooSoob", Expected::Error(Error::WordInvalid)),
    ("HooT", Expected::Word(2, 994, 1, 0)),
    ("Hoog", Expected::Word(2, 435, 1, 0)),
    ("Hooh", Expected::Word(2, 4, 1, 0)),
    ("Hook", Expected::Word(2, 177, 1, 0)),
    ("Hopok", Expected::Word(3, 7465, 0, 0)),
    ("L6ıık", Expected::Error(Error::WordInvalid)),
    ("Lı6ıık", Expected::Word(3, 8975, 3, 3)),
    ("LıGGı", Expected::Word(2, 428, 2, 1)),
    ("LıGGı?", Expected::Word(3, 75779, 1, 3)),
    ("LıGGıS", Expected::Word(3, 32435, 1, 3)),
    ("LıKKı", Expected::Word(2, 170, 2, 1)),
    ("LıT7oYYo", Expected::Word(4, 3181090, 4, 2)),
    ("LıT7oYo", Expected::Error(Error::WordInvalid)),
    ("Lıa", Expected::Error(Error::WordInvalid)),
    ("Lık", Expected::Word(2, 213, 0, 1)),
    ("OoQ", Expected::Word(2, 639, 0, 0)),
    ("OooQ", Expected::Word(2, 639, 1, 0)),
    ("Ooxob2B", Expected::Error(Error::WordInvalid)),
    ("OoxobıB", Expected::Word(4, 2064276, 1, 1)),
    ("OıQ", Expected::Word(2, 639, 0, 1)),
    ("Pb", Expected::Concept(2, 1404)),
    ("PwıR", Expected::Error(Error::WordInvalid)),
    ("PıR", Expected::Word(2, 1576, 0, 1)),
    ("Pıb", Expected::Word(2, 1404, 0, 1)),
    ("PııR", Expected::Word(2, 1576, 1, 1)),
    ("Q?K", Expected::Concept(3, 6131)),
    ("QK", Expected::Concept(2, 145)),
    ("QoO", Expected::Word(2, 1522, 0, 0)),
    ("QooO", Expected::Word(2, 1522, 1, 0)),
    ("Qı83ıb", Expected::Word(4, 2399329, 0, 3)),
    ("Qı83ııb", Expected::Word(4, 2399329, 3, 3)),
    ("QıK", Expected::Word(2, 145, 0, 1)),
    ("QıOıt", Expected::Word(3, 44093, 0, 3)),
    ("RıG0oO", Expected::Word(4, 2658164, 0, 2)),
    ("RıG0oh", Expected::Word(4, 66512, 0, 2)),
    ("Rıfıxxwt", Expected::Error(Error::WordInvalid)),
    ("Rıfıxxıt", Expected::Word(4, 1842857, 6, 3)),
    ("Sht", Expected::Concept(3, 44186)),
    ("Slıl", Expected::Error(Error::WordInvalid)),
    ("So77ıT", Expected::Word(3, 42392, 1, 1)),
    ("SoRRo", Expected::Word(2, 1568, 2, 0)),
    ("Solo", Expected::Error(Error::WordInvalid)),
    ("Solo?", Expected::Word(3, 74885, 0, 0)),
    ("Soloı", Expected::Error(Error::WordInvalid)),
    ("St", Expected::Concept(2, 1052)),
    ("Sı?go66o", Expected::Word(4, 2108219, 4, 2)),
    ("SıZgo66o", Expected::Word(4, 2108198, 4, 2)),
    ("Sıgo66o", Expected::Word(3, 51420, 4, 2)),
    ("Sıl", Expected::Word(2, 1740, 0, 1)),
    ("Sıt", Expected::Word(2, 1052, 0, 1)),
    ("Sııl", Expected::Word(2, 1740, 1, 1)),
    ("To", Expected::Error(Error::WordInvalid)),
    ("ToGdıV", Expected::Word(4, 2193060, 0, 1)),
    ("ToGhıV", Expected::Word(4, 2192157, 0, 1)),
    ("ToGıV", Expected::Word(3, 53477, 0, 1)),
    ("ToH", Expected::Word(2, 111, 0, 0)),
    ("ToY", Expected::Word(2, 1831, 0, 0)),
    ("Too?xom", Expected::Word(4, 2488617, 2, 0)),
    ("Toolxom", Expected::Word(4, 2488616, 2, 0)),
    ("Tooxom", Expected::Word(3, 60698, 2, 0)),
    ("VoRkool", Expected::Word(4, 3017185, 3, 0)),
    ("Vokool", Expected::Word(3, 73590, 3, 0)),
    ("Vowwo", Expected::Word(2, 1880, 2, 0)),
    ("VıZ", Expected::Word(2, 848, 0, 1)),
    ("VııZ", Expected::Word(2, 848, 1, 1)),
    ("Xo7ofıB", Expected::Word(4, 2014220, 1, 1)),
    ("XozoRRo", Expected::Word(3, 65373, 4, 0)),
    ("Xıddı", Expected::Word(2, 954, 2, 1)),
    ("Xıı7ı3", Expected::Word(3, 23827, 2, 3)),
    ("Y2", Expected::Concept(2, 44)),
    ("Y22a2w", Expected::Error(Error::WordInvalid)),
    ("Y2awY2ı", Expected::Error(Error::WordInvalid)),
    ("Y2h", Expected::Concept(3, 43)),
    ("Y?", Expected::Concept(2, 1763)),
    ("Y?lı?", Expected::Error(Error::WordInvalid)),
    ("Ya2lh?2a", Expected::Error(Error::WordInvalid)),
    ("Yah?Y", Expected::Error(Error::WordInvalid)),
    ("YaoY2Y?ı", Expected::Error(Error::WordInvalid)),
    ("YhLoo9", Expected::Error(Error::WordInvalid)),
    ("YhloıYı", Expected::Error(Error::WordInvalid)),
    ("Yhııl2?", Expected::Error(Error::WordInvalid)),
    ("YoLoo9", Expected::Word(3, 28977, 3, 0)),
    ("YoRRo", Expected::Word(2, 1549, 2, 0)),
    ("YoTTız", Expected::Word(3, 36185, 1, 1)),
    ("YoTız", Expected::Word(3, 36185, 0, 1)),
    ("Yw", Expected::Concept(2, 1850)),
    ("Yw2", Expected::Concept(3, 1848)),
    ("Ywh?", Expected::Concept(4, 3035927)),
    ("Ywhıı", Expected::Error(Error::WordInvalid)),
    ("YwohY", Expected::Error(Error::WordInvalid)),
    ("YwwYY", Expected::Error(Error::WordInvalid)),
    ("Yı", Expected::Error(Error::WordInvalid)),
    ("YıO2ıj", Expected::Word(4, 816344, 0, 3)),
    ("YıOıj", Expected::Word(3, 19943, 0, 3)),
    ("YıOııj", Expected::Word(3, 19943, 3, 3)),
    ("Yıı", Expected::Error(Error::WordInvalid)),
    ("Yııh", Expected::Word(2, 1, 1, 1)),
    ("Yııl", Expected::Word(2, 1721, 1, 1)),
    ("Zo6?ıQ", Expected::Word(4, 1074474, 0, 1)),
    ("Zo6ooLoQ", Expected::Word(4, 1074392, 5, 0)),
    ("Zo6wıQ", Expected::Word(4, 1072833, 0, 1)),
    ("Zo6ıQ", Expected::Word(3, 26194, 0, 1)),
    ("ZoLBıccı", Expected::Word(4, 1147956, 4, 1)),
    ("ZohooLoQ", Expected::Word(4, 1074366, 5, 0)),
    ("ZıTHı00ı", Expected::Word(4, 1963226, 4, 3)),
    ("a", Expected::Error(Error::WordInvalid)),
    ("a2?", Expected::Error(Error::WordInvalid)),
    ("a2hl", Expected::Error(Error::WordInvalid)),
    ("a2oa2Y", Expected::Error(Error::WordInvalid)),
    ("a?", Expected::Error(Error::WordInvalid)),
    ("a?2wl22", Expected::Error(Error::WordInvalid)),
    ("a??Yo2?", Expected::Error(Error::WordInvalid)),
    ("aYl2a", Expected::Error(Error::WordInvalid)),
    ("aa", Expected::Error(Error::WordInvalid)),
    ("ah", Expected::Error(Error::WordInvalid)),
    ("ahoahoı?", Expected::Error(Error::WordInvalid)),
    ("alaı2ol", Expected::Error(Error::WordInvalid)),
    ("alh", Expected::Error(Error::WordInvalid)),
    ("alwlY", Expected::Error(Error::WordInvalid)),
    ("ao2olhwlo", Expected::Error(Error::WordInvalid)),
    ("aowılYa", Expected::Error(Error::WordInvalid)),
    ("aw", Expected::Error(Error::WordInvalid)),
    ("aw?wl?", Expected::Error(Error::WordInvalid)),
    ("awa", Expected::Error(Error::WordInvalid)),
    ("awl?how", Expected::Error(Error::WordInvalid)),
    ("aww2lw?", Expected::Error(Error::WordInvalid)),
    ("awıow2ıoY", Expected::Error(Error::WordInvalid)),
    ("aıı7ı3", Expected::Error(Error::WordInvalid)),
    ("cıHııY", Expected::Word(3, 76569, 3, 3)),
    ("cıHııh", Expected::Word(3, 717, 3, 3)),
    ("cıOıwoS", Expected::Word(4, 1289812, 1, 2)),
    ("cıYıwoS", Expected::Word(4, 1289778, 1, 2)),
    ("cııXdV", Expected::Error(Error::WordInvalid)),
    ("cııXdıV", Expected::Word(4, 2179239, 2, 3)),
    ("cııoo0", Expected::Error(Error::WordInvalid)),
    ("cııto0", Expected::Word(3, 47737, 2, 2)),
    ("cııwoS", Expected::Word(3, 31459, 2, 2)),
    ("do?oo4o", Expected::Error(Error::WordInvalid)),
    ("do?oo4oB", Expected::Word(4, 2042701, 5, 0)),
    ("foX", Expected::Word(2, 247, 0, 0)),
    ("gcmo1", Expected::Error(Error::WordInvalid)),
    ("gıcmo1", Expected::Word(4, 2837503, 0, 2)),
    ("h", Expected::Error(Error::WordInvalid)),
    ("h2Yw", Expected::Concept(4, 3189103)),
    ("h2l?", Expected::Concept(4, 3040972)),
    ("h2o?w", Expected::Error(Error::WordInvalid)),
    ("h2ıhlhl", Expected::Error(Error::WordInvalid)),
    ("h?w", Expected::Concept(3, 77783)),
    ("halı", Expected::Error(Error::WordInvalid)),
    ("hh", Expected::Error(Error::WordInvalid)),
    ("hha2ıYw", Expected::Error(Error::WordInvalid)),
    ("hhhıw", Expected::Error(Error::WordInvalid)),
    ("hl", Expected::Concept(2, 1723)),
    ("hl2ıı", Expected::Error(Error::WordInvalid)),
    ("hlhowwww", Expected::Error(Error::WordInvalid)),
    ("hll2Ya2la", Expected::Error(Error::WordInvalid)),
    ("hlo", Expected::Error(Error::WordInvalid)),
    ("ho", Expected::Error(Error::WordInvalid)),
    ("ho9ııB", Expected::Word(3, 48905, 3, 1)),
    ("ho?hı", Expected::Error(Error::WordInvalid)),
    ("ho?ıl", Expected::Word(3, 72407, 0, 1)),
    ("hoLBıccı", Expected::Word(4, 1116960, 4, 1)),
    ("hoYoGo?", Expected::Word(4, 3039699, 1, 0)),
    ("hoYoo?", Expected::Word(3, 74130, 3, 0)),
    ("hoop", Expected::Word(2, 1336, 1, 0)),
    ("hopobom", Expected::Word(4, 2450028, 1, 0)),
    ("howol", Expected::Word(3, 72367, 0, 0)),
    ("hw", Expected::Concept(2, 1851)),
    ("hıYwaloY?", Expected::Error(Error::WordInvalid)),
    ("hıw", Expected::Word(2, 1851, 0, 1)),
    ("hıwl2?2ho", Expected::Error(Error::WordInvalid)),
    ("hıım", Expected::Word(2, 1422, 1, 1)),
    ("jo0", Expected::Word(2, 1132, 0, 0)),
    ("jo?oopıS", Expected::Word(4, 1284160, 5, 1)),
    ("joToopıS", Expected::Word(4, 1284143, 5, 1)),
    ("joo0", Expected::Word(2, 1132, 1, 0)),
    ("jooopıS", Expected::Error(Error::WordInvalid)),
    ("jı", Expected::Error(Error::WordInvalid)),
    ("jı0", Expected::Word(2, 1132, 0, 1)),
    ("jı2", Expected::Word(2, 56, 0, 1)),
    ("jımmı", Expected::Word(2, 1433, 2, 1)),
    ("jııdın", Expected::Word(3, 62015, 2, 3)),
    ("kTTo", Expected::Error(Error::WordInvalid)),
    ("koTTo", Expected::Word(2, 996, 2, 0)),
    ("koodoS", Expected::Word(3, 31018, 2, 0)),
    ("koop", Expected::Word(2, 1340, 1, 0)),
    ("kı33ı", Expected::Word(2, 566, 2, 1)),
    ("kı3ı", Expected::Error(Error::WordInvalid)),
    ("kııSo7", Expected::Word(3, 21983, 2, 2)),
    ("kııho7", Expected::Word(3, 21968, 2, 2)),
    ("l?", Expected::Concept(2, 1805)),
    ("lY", Expected::Concept(2, 1848)),
    ("lYhh", Expected::Error(Error::WordInvalid)),
    ("lYwh2wal", Expected::Error(Error::WordInvalid)),
    ("lh", Expected::Concept(2, 42)),
    ("lh2", Expected::Concept(3, 3572)),
    ("lhı?", Expected::Error(Error::WordInvalid)),
    ("llY??w2l2", Expected::Error(Error::WordInvalid)),
    ("llh?ı??ıl", Expected::Error(Error::WordInvalid)),
    ("llıY2?", Expected::Error(Error::WordInvalid)),
    ("lo", Expected::Error(Error::WordInvalid)),
    ("lo44on", Expected::Word(3, 63178, 1, 0)),
    ("lo44ın", Expected::Word(3, 63178, 1, 1)),
    ("loY", Expected::Word(2, 1848, 0, 0)),
    ("loYl", Expected::Error(Error::WordInvalid)),
    ("lol", Expected::Error(Error::WordInvalid)),
    ("lolal", Expected::Error(Error::WordInvalid)),
    ("looı", Expected::Error(Error::WordInvalid)),
    ("loıı2Yıh", Expected::Error(Error::WordInvalid)),
    ("lw", Expected::Concept(2, 1891)),
    ("lwhhıı2", Expected::Error(Error::WordInvalid)),
    ("lwll", Expected::Error(Error::WordInvalid)),
    ("lwlıY?2YY", Expected::Error(Error::WordInvalid)),
    ("mo99", Expected::Error(Error::WordInvalid)),
    ("mo99o", Expected::Word(2, 723, 2, 0)),
    ("nıPoo1", Expected::Word(3, 70209, 3, 2)),
    ("nıPoow", Expected::Word(3, 79196, 3, 2)),
    ("nıVı0o7", Expected::Word(4, 951639, 1, 2)),
    ("o1", Expected::Error(Error::WordInvalid)),
    ("o2?2", Expected::Error(Error::WordInvalid)),
    ("o7ofıB", Expected::Error(Error::WordInvalid)),
    ("o9ııB", Expected::Error(Error::WordInvalid)),
    ("o?2lwh", Expected::Error(Error::WordInvalid)),
    ("o?2lwoawa", Expected::Error(Error::WordInvalid)),
    ("oLBıccı", Expected::Error(Error::WordInvalid)),
    ("oRRo", Expected::Error(Error::WordInvalid)),
    ("oYhoı2", Expected::Error(Error::WordInvalid)),
    ("oYla?a", Expected::Error(Error::WordInvalid)),
    ("oh?a?ahYw", Expected::Error(Error::WordInvalid)),
    ("ohhı?", Expected::Error(Error::WordInvalid)),
    ("olloa", Expected::Error(Error::WordInvalid)),
    ("ooaY?l", Expected::Error(Error::WordInvalid)),
    ("ooo?", Expected::Error(Error::WordInvalid)),
    ("ooodoS", Expected::Error(Error::WordInvalid)),
    ("ow?Yw", Expected::Error(Error::WordInvalid)),
    ("ow?Ywwı", Expected::Error(Error::WordInvalid)),
    ("oıY", Expected::Error(Error::WordInvalid)),
    ("oıa2", Expected::Error(Error::WordInvalid)),
    ("oıa?oYao2", Expected::Error(Error::WordInvalid)),
    ("pYjı6", Expected::Error(Error::WordInvalid)),
    ("pZZı2", Expected::Error(Error::WordInvalid)),
    ("po", Expected::Error(Error::WordInvalid)),
    ("po8", Expected::Word(2, 334, 0, 0)),
    ("poZZı2", Expected::Word(3, 3212, 1, 1)),
    ("poa", Expected::Error(Error::WordInvalid)),
    ("pı9ıfı6", Expected::Word(4, 2131362, 1, 3)),
    ("pı9ıfıı6", Expected::Word(4, 2131362, 7, 3)),
    ("pıGıT", Expected::Word(3, 42935, 0, 3)),
    ("pıGııT", Expected::Word(3, 42935, 3, 3)),
    ("pıVıkkoZ", Expected::Word(4, 1463934, 6, 2)),
    ("pıZZı2", Expected::Word(3, 3212, 1, 3)),
    ("pıjı6", Expected::Word(3, 51967, 0, 3)),
    ("ro1", Expected::Word(2, 1674, 0, 0)),
    ("roTTo", Expected::Word(2, 1028, 2, 0)),
    ("rıBokko", Expected::Word(3, 8890, 4, 2)),
    ("toVOo2", Expected::Word(4, 120241, 0, 0)),
    ("toVoOo2", Expected::Word(4, 120241, 1, 0)),
    ("tını00ıw", Expected::Word(4, 3229808, 6, 3)),
    ("tıoı00ıw", Expected::Error(Error::WordInvalid)),
    ("tısoH", Expected::Word(3, 4723, 0, 2)),
    ("w2?", Expected::Concept(3, 74090)),
    ("w2a2", Expected::Error(Error::WordInvalid)),
    ("w2hlıhı", Expected::Error(Error::WordInvalid)),
    ("w2ıa", Expected::Error(Error::WordInvalid)),
    ("w2ıl?2aYh", Expected::Error(Error::WordInvalid)),
    ("w?", Expected::Concept(2, 1764)),
    ("w??", Expected::Error(Error::WordInvalid)),
    ("wY??w2wı2", Expected::Error(Error::WordInvalid)),
    ("wYlY?w", Expected::Error(Error::WordInvalid)),
    ("wah2", Expected::Error(Error::WordInvalid)),
    ("waohY2h?", Expected::Error(Error::WordInvalid)),
    ("wh", Expected::Concept(2, 2)),
    ("whlll", Expected::Error(Error::WordInvalid)),
    ("whwlYl", Expected::Error(Error::WordInvalid)),
    ("wl", Expected::Concept(2, 1722)),
    ("wlh", Expected::Concept(3, 124)),
    ("wlhaı", Expected::Error(Error::WordInvalid)),
    ("wlo2Y?", Expected::Error(Error::WordInvalid)),
    ("wo1", Expected::Word(2, 1636, 0, 0)),
    ("ww", Expected::Error(Error::WordInvalid)),
    ("ww?2oıY", Expected::Error(Error::WordInvalid)),
    ("wwjod", Expected::Error(Error::WordInvalid)),
    ("wı2ıo2", Expected::Error(Error::WordInvalid)),
    ("wıTTı", Expected::Word(2, 991, 2, 1)),
    ("wıaw", Expected::Error(Error::WordInvalid)),
    ("wıhYjjo", Expected::Error(Error::WordInvalid)),
    ("wıhojjo", Expected::Word(3, 19951, 4, 2)),
    ("wıjod", Expected::Word(3, 39828, 0, 2)),
    ("wıwııa2l", Expected::Error(Error::WordInvalid)),
    ("wıı?ıB", Expected::Word(3, 48887, 2, 3)),
    ("wııwwalo2", Expected::Error(Error::WordInvalid)),
    ("wııwıB", Expected::Error(Error::WordInvalid)),
    ("xıPooc", Expected::Word(3, 27493, 3, 2)),
    ("xıhooc", Expected::Word(3, 27470, 3, 2)),
    ("xıooc", Expected::Error(Error::WordInvalid)),
    ("zgOııf", Expected::Error(Error::WordInvalid)),
    ("zıffı", Expected::Word(2, 1313, 2, 1)),
    ("zıgOııf", Expected::Word(4, 2262392, 3, 3)),
    ("ı", Expected::Error(Error::WordInvalid)),
    ("ı2Y2ahl", Expected::Error(Error::WordInvalid)),
    ("ı?o", Expected::Error(Error::WordInvalid)),
    ("ı?wowawww", Expected::Error(Error::WordInvalid)),
    ("ıBokko", Expected::Error(Error::WordInvalid)),
    ("ıQ", Expected::Error(Error::WordInvalid)),
    ("ıTTı", Expected::Error(Error::WordInvalid)),
    ("ıVı0o7", Expected::Error(Error::WordInvalid)),
    ("ıY?lowY", Expected::Error(Error::WordInvalid)),
    ("ıYY", Expected::Error(Error::WordInvalid)),
    ("ıYa2?Y2", Expected::Error(Error::WordInvalid)),
    ("ıYaoYoh", Expected::Error(Error::WordInvalid)),
    ("ıYw2ha", Expected::Error(Error::WordInvalid)),
    ("ıhYww", Expected::Error(Error::WordInvalid)),
    ("ıhola2", Expected::Error(Error::WordInvalid)),
    ("ılı?la2", Expected::Error(Error::WordInvalid)),
    ("ısoo7", Expected::Error(Error::WordInvalid)),
    ("ıw", Expected::Error(Error::WordInvalid)),
    ("ıw?o2w", Expected::Error(Error::WordInvalid)),
    ("ıwl2ao?", Expected::Error(Error::WordInvalid)),
    ("ıwwıwlaal", Expected::Error(Error::WordInvalid)),
    ("ıım", Expected::Error(Error::WordInvalid)),
];

fn word_of(concept: Concept, stem_index: u8, form_index: u8) -> Word {
    let mut stems = concept.stems();
    while let Some(stem) = stems.next() {
        let mut words = stem.words();
        while let Some(word) = words.next() {
            if word.stem_index() == stem_index && word.form_index() == form_index {
                return word;
            }
        }
    }
    panic!("no such word")
}

#[test]
fn strings_stand_for_concepts_words_or_nothing() {
    for (text, expected) in CASES.iter() {
        let expected = match expected {
            Expected::Concept(length, index) => {
                let length = Length::new(*length).expect("length");
                Ok(ConceptOrWord::Concept(Concept::from_index(*index, length).expect("concept")))
            },
            Expected::Word(length, index, stem_index, form_index) => {
                let length = Length::new(*length).expect("length");
                let concept = Concept::from_index(*index, length).expect("concept");
                Ok(ConceptOrWord::Word(word_of(concept, *stem_index, *form_index)))
            },
            Expected::Error(error) => Err(*error),
        };
        assert_eq!(Script::UywiChiffre.from_str(text), expected, "{text}");
    }
}

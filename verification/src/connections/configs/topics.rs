use vstd::prelude::*;

verus! {

/// The gossip topics the nodes talk on.
#[derive(Debug, Clone, Copy, PartialEq, Eq)]
pub enum TopicsEnums {
    Operations,
    NodesInfo,
    Sync,
}

/// The name of a topic.
pub open spec fn topic_name(t: TopicsEnums) -> Seq<char> {
    match t {
        TopicsEnums::Operations => "OPERATIONS"@,
        TopicsEnums::NodesInfo => "NODES_INFO"@,
        TopicsEnums::Sync => "SYNC"@,
    }
}

impl TopicsEnums {
    /// The name of the topic.
    pub fn as_str(&self) -> (name: &str)
        ensures
            name@ == topic_name(*self),
    {
        match self {
            TopicsEnums::Operations => "OPERATIONS",
            TopicsEnums::NodesInfo => "NODES_INFO",
            TopicsEnums::Sync => "SYNC",
        }
    }

    /// The name of the topic, owned.
    pub fn to_string(&self) -> (name: String)
        ensures
            name@ == topic_name(*self),
    {
        self.as_str().to_owned()
    }
}

/// Every topic, each once.
pub fn get_topics() -> (topics: Vec<TopicsEnums>)
    ensures
        topics@ == seq![TopicsEnums::Operations, TopicsEnums::NodesInfo, TopicsEnums::Sync],
{
    let mut topics: Vec<TopicsEnums> = Vec::new();
    topics.push(TopicsEnums::Operations);
    topics.push(TopicsEnums::NodesInfo);
    topics.push(TopicsEnums::Sync);
    assert(topics@ =~= seq![TopicsEnums::Operations, TopicsEnums::NodesInfo, TopicsEnums::Sync]);
    topics
}

/// The topic called `name`, if there is one.
pub fn get_topic(name: &String) -> (topic: Option<TopicsEnums>)
    ensures
        match topic {
            Some(t) => topic_name(t) == name@,
            None => forall|t: TopicsEnums| topic_name(t) != name@,
        },
{
    let operations = TopicsEnums::Operations.to_string();
    let nodes_info = TopicsEnums::NodesInfo.to_string();
    let sync = TopicsEnums::Sync.to_string();
    if *name == operations {
        Some(TopicsEnums::Operations)
    } else if *name == nodes_info {
        Some(TopicsEnums::NodesInfo)
    } else if *name == sync {
        Some(TopicsEnums::Sync)
    } else {
        proof {
            assert forall|t: TopicsEnums| topic_name(t) != name@ by {
                match t {
                    TopicsEnums::Operations => {},
                    TopicsEnums::NodesInfo => {},
                    TopicsEnums::Sync => {},
                }
            }
        }
        None
    }
}

} // verus!
